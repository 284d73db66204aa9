use vstd::prelude::*;

use crate::event_bus::{AsyncEventBus, AsyncPostbox};

verus! {

/// What runs blocking work on behalf of a task.
pub trait Unblocker {
    /// Runs `f` and gives back what it returned.
    fn unblock<T, F: FnOnce() -> T>(&self, f: F) -> (r: T)
        requires
            f.requires(()),
        ensures
            f.ensures((), r),
    ;
}

/// An async wrapper around the blocking value `S`.
pub trait AsyncWrapper<S>: Sized {
    /// The blocking value wrapped.
    spec fn sync(&self) -> S;

    fn new(sync: S) -> (r: Self)
        ensures
            r.sync() == sync,
    ;
}

/// An async wrapper around the blocking value `S`, with the helper `U` that runs the
/// blocking calls.
pub trait UnblockingAsyncWrapper<U, S>: Sized {
    /// The blocking value wrapped.
    spec fn blocking(&self) -> S;

    /// The helper that runs the blocking calls.
    spec fn helper(&self) -> U;

    fn new(unblocker: U, sync: S) -> (r: Self)
        ensures
            r.blocking() == sync,
            r.helper() == unblocker,
    ;
}

/// A blocking value that can be wrapped for use from tasks.
pub trait Asyncify: Sized {
    /// The value, wrapped.
    fn into_async<W: AsyncWrapper<Self>>(self) -> (r: W)
        ensures
            r.sync() == self,
    {
        W::new(self)
    }

    /// The value, borrowed and wrapped.
    fn as_async<'a, W: AsyncWrapper<&'a mut Self>>(&'a mut self) -> (r: W)
        ensures
            *r.sync() == *old(self),
            *final(r.sync()) == *final(self),
    {
        W::new(self)
    }
}

/// A blocking value that can be wrapped for use from tasks together with a helper that
/// runs its blocking calls.
pub trait UnblockingAsyncify: Sized {
    /// The value, wrapped with `unblocker`.
    fn unblock_into_async<U, W: UnblockingAsyncWrapper<U, Self>>(self, unblocker: U) -> (r: W)
        ensures
            r.blocking() == self,
            r.helper() == unblocker,
    {
        W::new(unblocker, self)
    }

    /// The value, borrowed and wrapped with `unblocker`.
    fn unblock_as_async<'a, U, W: UnblockingAsyncWrapper<U, &'a mut Self>>(&'a mut self, unblocker: U) -> (r: W)
        ensures
            *r.blocking() == *old(self),
            *final(r.blocking()) == *final(self),
            r.helper() == unblocker,
    {
        W::new(unblocker, self)
    }
}

/// The helper that runs blocking work right where the task runs.
#[derive(Clone, Copy)]
pub struct BlockingUnblocker(());

impl BlockingUnblocker {
    /// The work `f`, to run when first polled.
    pub fn unblock<T, F: FnOnce() -> T>(&self, f: F) -> (r: BlockingFuture<F>)
        ensures
            r.computation() == Some(f),
    {
        BlockingFuture::new(f)
    }
}

impl Unblocker for BlockingUnblocker {
    fn unblock<T, F: FnOnce() -> T>(&self, f: F) -> (r: T) {
        f()
    }
}

/// The helper that runs blocking work right where the task runs.
pub fn blocking_unblocker() -> BlockingUnblocker {
    BlockingUnblocker(())
}

/// Blocking work to run once, when first polled.
pub struct BlockingFuture<F> {
    computation: Option<F>,
}

impl<F> BlockingFuture<F> {
    /// The work still to run.
    pub closed spec fn computation(&self) -> Option<F> {
        self.computation
    }

    pub fn new(computation: F) -> (r: Self)
        ensures
            r.computation() == Some(computation),
    {
        BlockingFuture { computation: Some(computation) }
    }

    /// Runs the work and gives its result; a future polled once is done.
    pub fn poll<T>(&mut self) -> (r: T)
        where
            F: FnOnce() -> T,
        requires
            old(self).computation() matches Some(f) && f.requires(()),
        ensures
            old(self).computation() matches Some(f) && f.ensures((), r),
            final(self).computation() is None,
    {
        let mut taken: Option<F> = None;
        core::mem::swap(&mut taken, &mut self.computation);
        let f = taken.unwrap();
        f()
    }
}

impl<U, PB> UnblockingAsyncWrapper<U, PB> for AsyncPostbox<U, PB> {
    open spec fn blocking(&self) -> PB {
        self.blocking_postbox()
    }

    open spec fn helper(&self) -> U {
        self.unblocker()
    }

    fn new(unblocker: U, sync: PB) -> Self {
        AsyncPostbox::new(unblocker, sync)
    }
}

impl<PB> AsyncWrapper<PB> for AsyncPostbox<(), PB> {
    open spec fn sync(&self) -> PB {
        self.blocking_postbox()
    }

    fn new(sync: PB) -> Self {
        AsyncPostbox::new((), sync)
    }
}

impl<U, E> UnblockingAsyncWrapper<U, E> for AsyncEventBus<U, E> {
    open spec fn blocking(&self) -> E {
        self.event_bus()
    }

    open spec fn helper(&self) -> U {
        self.unblocker()
    }

    fn new(unblocker: U, sync: E) -> Self {
        AsyncEventBus::new(unblocker, sync)
    }
}

impl<E> AsyncWrapper<E> for AsyncEventBus<(), E> {
    open spec fn sync(&self) -> E {
        self.event_bus()
    }

    fn new(sync: E) -> Self {
        AsyncEventBus::new((), sync)
    }
}

} // verus!
