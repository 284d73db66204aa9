use vstd::prelude::*;

verus! {

/// Why a task could not be spawned: the executor's queue is full.
#[derive(Debug, Clone, Copy, PartialEq, Eq, Structural)]
pub enum SpawnError {
    QueueFull,
}

impl SpawnError {
    /// The error's text.
    pub fn message(&self) -> (r: &'static str)
        ensures
            r@ == "Queue Full Error"@,
    {
        "Queue Full Error"
    }
}

/// How an executor with nothing to run waits for work.
pub trait Wait {
    fn wait(&self);
}

/// How a task woken up tells its executor that there is work.
pub trait Notify {
    fn notify(&self);
}

/// What gives each task a way to notify its executor.
pub trait NotifyFactory {
    type Notify: Notify;

    fn notifier(&self) -> Self::Notify;
}

/// What an executor does before and after a run.
pub trait RunContextFactory {
    fn prerun(&self) {
    }

    fn postrun(&self) {
    }
}

/// The proof, handed to the code an executor runs, that it runs inside the executor.
pub struct RunContext(());

impl RunContext {
    pub(crate) fn new() -> RunContext {
        RunContext(())
    }
}

/// What blocks a thread on a task: a way to notify, and a way to wait.
pub struct EmbeddedBlocker<N, W>(N, W);

impl<N, W> EmbeddedBlocker<N, W> {
    /// The way to notify.
    pub closed spec fn notify_factory(&self) -> N {
        self.0
    }

    /// The way to wait.
    pub closed spec fn waiter(&self) -> W {
        self.1
    }

    pub fn new(notify_factory: N, wait: W) -> (r: Self)
        ensures
            r.notify_factory() == notify_factory,
            r.waiter() == wait,
    {
        EmbeddedBlocker(notify_factory, wait)
    }
}

/// Runs `run` between the factory's preparation and its clean-up, and returns what it
/// returns.
pub fn with_context<R: RunContextFactory, T, F: FnOnce(&RunContext) -> T>(factory: &R, run: F) -> (r: T)
    requires
        forall|c: &RunContext| run.requires((c,)),
    ensures
        exists|c: &RunContext| run.ensures((c,), r),
{
    factory.prerun();
    let context = RunContext::new();
    let result = run(&context);
    factory.postrun();
    result
}

/// What starts tasks, each from a future of type `F`, and hands back a handle on each.
pub trait Spawner<F> {
    type Task;
    type Error;

    /// Whether this spawner always has room for one more task.
    spec fn can_spawn(&self) -> bool;

    fn spawn(&mut self, fut: F) -> (r: Result<Self::Task, Self::Error>)
        ensures
            old(self).can_spawn() ==> r is Ok,
    ;
}

/// A spawner that keeps the handles of the tasks it started, at most `C` of them.
pub struct TasksSpawner<S, K, const C: usize> {
    spawner: S,
    tasks: Vec<K>,
}

impl<S, K, const C: usize> TasksSpawner<S, K, C> {
    /// The handles kept, in the order the tasks were started.
    pub closed spec fn tasks(&self) -> Seq<K> {
        self.tasks@
    }

    /// The spawner.
    pub closed spec fn spawner(&self) -> S {
        self.spawner
    }

    /// At most `C` handles.
    pub closed spec fn wf(&self) -> bool {
        self.tasks@.len() <= C
    }

    pub fn new(spawner: S) -> (r: Self)
        ensures
            r.wf(),
            r.spawner() == spawner,
            r.tasks() == Seq::<K>::empty(),
    {
        TasksSpawner { spawner, tasks: Vec::new() }
    }

    /// The spawner and the handles kept.
    pub fn release(self) -> (r: (S, Vec<K>))
        ensures
            r.1@ == self.tasks(),
    {
        (self.spawner, self.tasks)
    }

    /// Starts a task from `fut` and keeps its handle; fails with `QueueFull` when the
    /// spawner fails or when `C` handles are kept already.
    pub fn spawn<F>(self, fut: F) -> (r: Result<Self, SpawnError>)
        where
            S: Spawner<F, Task = K>,
        requires
            self.wf(),
        ensures
            r matches Ok(s) ==> s.wf() && s.tasks().len() == self.tasks().len() + 1
                && s.tasks().drop_last() == self.tasks() && self.tasks().len() < C,
            r is Err ==> r == Err::<Self, SpawnError>(SpawnError::QueueFull),
            self.tasks().len() >= C ==> r is Err,
            self.spawner().can_spawn() && self.tasks().len() < C ==> r is Ok,
    {
        let mut this = self;
        match this.spawner.spawn(fut) {
            Ok(task) => {
                if this.tasks.len() < C {
                    this.tasks.push(task);
                    proof {
                        assert(this.tasks@.drop_last() =~= self.tasks@);
                    }
                    Ok(this)
                } else {
                    Err(SpawnError::QueueFull)
                }
            },
            Err(_) => Err(SpawnError::QueueFull),
        }
    }
}

} // verus!
