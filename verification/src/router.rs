//! The router: a fixed pool of workers, and the rule that sends every unit of
//! work with the same routing key to the same worker.

use crate::dispatch::{key_hash, route, worker_index};
use crate::global::Global;
use crate::utils::{worker_id, WorkerContext};
pub use crate::via::Via;
use crate::via::Bridge;
use crate::worker::{Worker, WorkerEvent, WorkerView};
use std::hash::Hash;
use vstd::prelude::*;

verus! {

/// The number of workers of the router that is made when a unit of work is
/// routed globally before any router was installed.
pub const DEFAULT_WORKERS: usize = 1024;

/// What can happen to a router.
pub enum Event<J> {
    /// A unit of work is submitted under a key with this hash.
    Submit { hash: u64, job: J },
    /// The run loop of a worker asks for its next job.
    Start { worker: int },
    /// The job that a worker was running has come to its end.
    Finish { worker: int },
    /// A worker is torn down.
    Close { worker: int },
}

impl<J> Event<J> {
    /// What the event is to the worker with index `worker` in a pool of
    /// `workers` workers; `None` if it falls to another worker.
    pub open spec fn seen_by(self, worker: int, workers: nat) -> Option<WorkerEvent<J>> {
        match self {
            Event::Submit { hash, job } => if route(hash, workers) == worker {
                Some(WorkerEvent::Enqueue(job))
            } else {
                None
            },
            Event::Start { worker: w } => if w == worker {
                Some(WorkerEvent::Start)
            } else {
                None
            },
            Event::Finish { worker: w } => if w == worker {
                Some(WorkerEvent::Finish)
            } else {
                None
            },
            Event::Close { worker: w } => if w == worker {
                Some(WorkerEvent::Close)
            } else {
                None
            },
        }
    }
}

/// The events among `events` that fall to the worker with index `worker` in a
/// pool of `workers` workers, in order.
pub open spec fn trace_of<J>(events: Seq<Event<J>>, worker: int, workers: nat) -> Seq<
    WorkerEvent<J>,
>
    decreases events.len(),
{
    if events.len() == 0 {
        Seq::empty()
    } else {
        let earlier = trace_of(events.drop_last(), worker, workers);
        match events.last().seen_by(worker, workers) {
            Some(event) => earlier.push(event),
            None => earlier,
        }
    }
}

/// The state of a router, as contracts see it.
pub struct RouterView<J> {
    /// The workers, by index.
    pub workers: Seq<WorkerView<J>>,
    /// Whether the workers run on an execution substrate of the router's own
    /// rather than on the caller's.
    pub detached: bool,
}

impl<J> RouterView<J> {
    /// A fresh router with `workers` workers.
    pub open spec fn init(workers: nat, detached: bool) -> Self {
        RouterView {
            workers: Seq::new(workers, |i: int| WorkerView::<J>::init(i as nat)),
            detached,
        }
    }

    /// What holds of every router: it has a worker, and each worker knows its
    /// own index.
    pub open spec fn wf(self) -> bool {
        &&& self.workers.len() > 0
        &&& forall|i: int| 0 <= i < self.workers.len() ==> (#[trigger] self.workers[i]).id == i
    }

    /// The index of the worker that serves keys with hash `hash`.
    pub open spec fn target(self, hash: u64) -> int {
        route(hash, self.workers.len()) as int
    }

    /// The router after `event` happened to the worker with index `worker`.
    /// An index outside the pool changes nothing.
    pub open spec fn at(self, worker: int, event: WorkerEvent<J>) -> Self {
        if 0 <= worker < self.workers.len() {
            RouterView {
                workers: self.workers.update(worker, self.workers[worker].step(event)),
                ..self
            }
        } else {
            self
        }
    }

    /// The job that the worker with index `worker` is handed when its run
    /// loop asks now.
    pub open spec fn next_job(self, worker: int) -> Option<J> {
        if 0 <= worker < self.workers.len() {
            self.workers[worker].next_job()
        } else {
            None
        }
    }

    /// How many jobs wait for the worker with index `worker`; 0 if the pool
    /// has no such worker.
    pub open spec fn waiting(self, worker: int) -> nat {
        if 0 <= worker < self.workers.len() {
            self.workers[worker].pending.len()
        } else {
            0
        }
    }

    /// Whether a job offered to the worker with index `worker` is taken.
    pub open spec fn accepts(self, worker: int) -> bool {
        0 <= worker < self.workers.len() && self.workers[worker].accepts()
    }

    /// The router after one event.
    pub open spec fn step(self, event: Event<J>) -> Self {
        match event {
            Event::Submit { hash, job } => self.at(self.target(hash), WorkerEvent::Enqueue(job)),
            Event::Start { worker } => self.at(worker, WorkerEvent::Start),
            Event::Finish { worker } => self.at(worker, WorkerEvent::Finish),
            Event::Close { worker } => self.at(worker, WorkerEvent::Close),
        }
    }

    /// The router after a sequence of events, first to last.
    pub open spec fn run(self, events: Seq<Event<J>>) -> Self
        decreases events.len(),
    {
        if events.len() == 0 {
            self
        } else {
            self.run(events.drop_last()).step(events.last())
        }
    }
}

/// The index of the worker that runs the code holding `ctx`.
pub fn current(ctx: &WorkerContext) -> (id: u64)
    ensures
        id == ctx.id(),
{
    worker_id(ctx) as u64
}

/// A fixed pool of workers with keyed submission. `J` is what a worker is
/// handed to run: the unit of work as the driver holds it.
///
/// The router is the pool itself, not a handle to it: to share it, wrap it.
/// Submission never waits: it puts the job in the queue of its worker and
/// returns. The driver of a worker takes the jobs out with [`Router::start`],
/// one at a time, and gives each its end with [`Router::finish`].
pub struct Router<J> {
    workers: Vec<Worker<J>>,
    detached: bool,
}

impl<J> View for Router<J> {
    type V = RouterView<J>;

    closed spec fn view(&self) -> RouterView<J> {
        RouterView {
            workers: Seq::new(self.workers@.len(), |i: int| self.workers@[i]@),
            detached: self.detached,
        }
    }
}

/// Makes `workers` fresh workers, numbered from 0.
fn open<J>(workers: usize) -> (pool: Vec<Worker<J>>)
    ensures
        pool@.len() == workers,
        forall|i: int| 0 <= i < workers ==> (#[trigger] pool@[i])@ == WorkerView::<J>::init(i as nat),
{
    let mut pool: Vec<Worker<J>> = Vec::new();
    let mut id: usize = 0;
    while id < workers
        invariant
            id <= workers,
            pool@.len() == id,
            forall|i: int| 0 <= i < id ==> (#[trigger] pool@[i])@ == WorkerView::<J>::init(i as nat),
        decreases workers - id,
    {
        pool.push(Worker::new(id));
        id = id + 1;
    }
    pool
}

impl<J> Router<J> {
    /// A router with `workers` workers, to be run on the caller's execution
    /// substrate. A router has at least one worker.
    pub fn new(workers: usize) -> (router: Router<J>)
        requires
            workers > 0,
        ensures
            router@ == RouterView::<J>::init(workers as nat, false),
            router@.wf(),
    {
        let router = Router { workers: open(workers), detached: false };
        assert(router@.workers =~= RouterView::<J>::init(workers as nat, false).workers);
        router
    }

    /// A router with `workers` workers, to be run on an execution substrate of
    /// its own. A router has at least one worker.
    pub fn run_on_thread(workers: usize) -> (router: Router<J>)
        requires
            workers > 0,
        ensures
            router@ == RouterView::<J>::init(workers as nat, true),
            router@.wf(),
    {
        let router = Router { workers: open(workers), detached: true };
        assert(router@.workers =~= RouterView::<J>::init(workers as nat, true).workers);
        router
    }

    /// A router with `workers` workers for the caller's execution substrate,
    /// or `None` where `workers` is 0: there is no router without a worker.
    pub fn try_new(workers: usize) -> (router: Option<Router<J>>)
        ensures
            router is None <==> workers == 0,
            router matches Some(made) ==> made@ == RouterView::<J>::init(workers as nat, false)
                && made@.wf(),
    {
        if workers == 0 {
            None
        } else {
            Some(Router::new(workers))
        }
    }

    /// A router with `workers` workers for an execution substrate of its own,
    /// or `None` where `workers` is 0: there is no router without a worker.
    pub fn try_run_on_thread(workers: usize) -> (router: Option<Router<J>>)
        ensures
            router is None <==> workers == 0,
            router matches Some(made) ==> made@ == RouterView::<J>::init(workers as nat, true)
                && made@.wf(),
    {
        if workers == 0 {
            None
        } else {
            Some(Router::run_on_thread(workers))
        }
    }

    /// How many workers the router has.
    pub fn worker_count(&self) -> (count: usize)
        ensures
            count == self@.workers.len(),
    {
        self.workers.len()
    }

    /// Whether the workers run on an execution substrate of the router's own.
    pub fn is_detached(&self) -> (detached: bool)
        ensures
            detached == self@.detached,
    {
        self.detached
    }

    /// Submits `job` under a key whose hash is `hash`: the job goes to the
    /// worker that serves the hash, and the bridge to its output is returned.
    /// If that worker was torn down the job is dropped and the bridge is
    /// severed.
    pub fn via_hashed<T>(&mut self, hash: u64, job: J) -> (handle: Via<T>)
        requires
            old(self)@.wf(),
        ensures
            final(self)@.wf(),
            final(self)@.workers.len() == old(self)@.workers.len(),
            final(self)@ == old(self)@.step(Event::Submit { hash, job }),
            handle@.worker == old(self)@.target(hash),
            handle@.bridge == Bridge::<T>::made(old(self)@.accepts(old(self)@.target(hash))),
    {
        let index = worker_index(hash, self.workers.len());
        let handle = Via::new(&mut self.workers[index], job);
        assert(self@.workers =~= old(self)@.step(Event::Submit { hash, job }).workers);
        handle
    }

    /// Submits `job` under `key`. The hash of the key, as [`key_hash`] gives
    /// it, picks the worker as in [`Router::via_hashed`]: the worker is the
    /// same for every submission whose key hashes alike. Which worker it is,
    /// the bridge tells.
    pub fn via<K: Hash, T>(&mut self, key: K, job: J) -> (handle: Via<T>)
        requires
            old(self)@.wf(),
        ensures
            final(self)@.wf(),
            final(self)@.workers.len() == old(self)@.workers.len(),
            0 <= handle@.worker < old(self)@.workers.len(),
            final(self)@ == old(self)@.at(handle@.worker as int, WorkerEvent::Enqueue(job)),
            exists|hash: u64|
                handle@.worker == #[trigger] old(self)@.target(hash)
                    && final(self)@ == old(self)@.step(Event::Submit { hash, job }),
            handle@.bridge == Bridge::<T>::made(old(self)@.accepts(handle@.worker as int)),
    {
        let hash = key_hash(&key);
        self.via_hashed(hash, job)
    }

    /// Hands out the job that the worker with index `worker` runs next,
    /// together with the context in which to run it, and marks that worker
    /// busy. Nothing is handed out while the worker's last job still runs,
    /// when nothing waits for it, after it was torn down, or when the pool has
    /// no such worker.
    pub fn start(&mut self, worker: usize) -> (next: Option<(J, WorkerContext)>)
        requires
            old(self)@.wf(),
        ensures
            final(self)@.wf(),
            final(self)@.workers.len() == old(self)@.workers.len(),
            final(self)@ == old(self)@.step(Event::Start { worker: worker as int }),
            (match next {
                Some((job, ctx)) => {
                    &&& old(self)@.next_job(worker as int) == Some(job)
                    &&& ctx.id() == worker
                    &&& worker < old(self)@.workers.len()
                },
                None => old(self)@.next_job(worker as int) is None,
            }),
    {
        if worker >= self.workers.len() {
            return None;
        }
        let ctx = self.workers[worker].context();
        let job = self.workers[worker].start();
        assert(self@.workers =~= old(self)@.step(Event::Start { worker: worker as int }).workers);
        match job {
            Some(job) => Some((job, ctx)),
            None => None,
        }
    }

    /// Records that the job which the worker with index `worker` was running
    /// came to its end.
    pub fn finish(&mut self, worker: usize)
        requires
            old(self)@.wf(),
        ensures
            final(self)@.wf(),
            final(self)@.workers.len() == old(self)@.workers.len(),
            final(self)@ == old(self)@.step(Event::Finish { worker: worker as int }),
    {
        if worker < self.workers.len() {
            self.workers[worker].finish();
            assert(self@.workers =~= old(self)@.step(
                Event::Finish { worker: worker as int },
            ).workers);
        }
    }

    /// Tears down the worker with index `worker`: the jobs that waited for it
    /// are dropped, and so is every job routed to it from now on.
    pub fn close(&mut self, worker: usize)
        requires
            old(self)@.wf(),
        ensures
            final(self)@.wf(),
            final(self)@.workers.len() == old(self)@.workers.len(),
            final(self)@ == old(self)@.step(Event::Close { worker: worker as int }),
    {
        if worker < self.workers.len() {
            self.workers[worker].close();
            assert(self@.workers =~= old(self)@.step(
                Event::Close { worker: worker as int },
            ).workers);
        }
    }

    /// Installs this router as the global one, in place of the one that was
    /// installed, if any.
    pub fn set_as_global(self, global: &mut Global<Router<J>>)
        ensures
            final(global)@ == Some(self),
    {
        global.install(self);
    }

    /// Calls `f` on the global router, or on `None` if none is installed, and
    /// returns what `f` returns. The slot is not changed.
    pub fn with_global<F, O>(global: &Global<Router<J>>, f: F) -> (out: O) where
        F: FnOnce(Option<&Router<J>>) -> O,

        requires
            f.requires((global.shared(),)),
        ensures
            f.ensures((global.shared(),), out),
    {
        global.with(f)
    }

    /// Calls `f` on the slot of the global router, which `f` may change, and
    /// returns what `f` returns. What the slot holds afterwards is what `f`
    /// left in it.
    pub fn with_global_mut<F, O>(global: &mut Global<Router<J>>, f: F) -> (out: O) where
        F: FnOnce(&mut Option<Router<J>>) -> O,

        requires
            forall|slot: &mut Option<Router<J>>| *slot == old(global)@ ==> f.requires((slot,)),
        ensures
            exists|slot: &mut Option<Router<J>>|
                *slot == old(global)@ && *final(slot) == final(global)@ && f.ensures(
                    (slot,),
                    out,
                ),
    {
        global.with_mut(f)
    }

    /// Whether a job routed to the worker with index `worker` is taken into
    /// its queue: the pool has such a worker and it was not torn down.
    pub fn accepts(&self, worker: usize) -> (accepts: bool)
        ensures
            accepts == self@.accepts(worker as int),
    {
        worker < self.workers.len() && !self.workers[worker].is_closed()
    }

    /// How many jobs wait for the worker with index `worker`; 0 when the pool
    /// has no such worker.
    pub fn pending(&self, worker: usize) -> (n: usize)
        ensures
            n == self@.waiting(worker as int),
    {
        if worker < self.workers.len() {
            self.workers[worker].pending()
        } else {
            0
        }
    }
}

} // verus!
