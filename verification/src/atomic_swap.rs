use vstd::prelude::*;

verus! {

/// A cell whose value is replaced in one step, handing the old value back.
pub trait AtomicSwap: Sized {
    type Data;

    /// The value held.
    spec fn value(&self) -> Self::Data;

    /// A cell holding `data`.
    fn new(data: Self::Data) -> (r: Self)
        ensures
            r.value() == data,
    ;

    /// Puts `data` in and gives back what was held.
    fn swap(&mut self, data: Self::Data) -> (r: Self::Data)
        ensures
            r == old(self).value(),
            final(self).value() == data,
    ;
}

/// An optional unit held as a flag.
pub struct AtomicOption(bool);

impl AtomicSwap for AtomicOption {
    type Data = Option<()>;

    closed spec fn value(&self) -> Option<()> {
        if self.0 {
            Some(())
        } else {
            None
        }
    }

    fn new(data: Option<()>) -> (r: Self) {
        match data {
            Some(u) => {
                assert(u == ());
                AtomicOption(true)
            },
            None => AtomicOption(false),
        }
    }

    fn swap(&mut self, data: Option<()>) -> (r: Option<()>) {
        let was = self.0;
        match data {
            Some(u) => {
                assert(u == ());
                self.0 = true;
            },
            None => {
                self.0 = false;
            },
        }
        if was {
            Some(())
        } else {
            None
        }
    }
}

} // verus!
