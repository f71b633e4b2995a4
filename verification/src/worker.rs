//! A worker: one sequential executor that serves a queue of jobs in the order
//! they arrived, one at a time.
//!
//! The worker decides; whoever drives it does the work. The driver offers jobs
//! with [`Worker::enqueue`], asks with [`Worker::start`] for the job to run
//! next, runs it to completion and reports back with [`Worker::finish`].

use crate::utils::{set_worker_id, WorkerContext};
use std::collections::VecDeque;
use vstd::prelude::*;

verus! {

/// What can happen to a worker.
pub enum WorkerEvent<J> {
    /// A job is offered to the worker's queue.
    Enqueue(J),
    /// The run loop asks for the next job.
    Start,
    /// The job that was running has come to its end.
    Finish,
    /// The worker is torn down.
    Close,
}

/// The state of a worker, as contracts see it.
pub struct WorkerView<J> {
    /// The worker's index in its pool.
    pub id: nat,
    /// The jobs that wait, oldest first.
    pub pending: Seq<J>,
    /// Whether a job is running.
    pub busy: bool,
    /// Whether the worker was torn down.
    pub closed: bool,
}

impl<J> WorkerView<J> {
    /// A fresh worker: nothing waits, nothing runs.
    pub open spec fn init(id: nat) -> Self {
        WorkerView { id, pending: Seq::empty(), busy: false, closed: false }
    }

    /// Whether a job offered now is taken into the queue.
    pub open spec fn accepts(self) -> bool {
        !self.closed
    }

    /// The worker after `job` was offered: it joins the end of the queue, or is
    /// dropped if the worker was torn down.
    pub open spec fn enqueue(self, job: J) -> Self {
        if self.accepts() {
            WorkerView { pending: self.pending.push(job), ..self }
        } else {
            self
        }
    }

    /// The job that the run loop is handed when it asks now: the oldest that
    /// waits, unless another is still running or the worker was torn down.
    pub open spec fn next_job(self) -> Option<J> {
        if !self.closed && !self.busy && self.pending.len() > 0 {
            Some(self.pending[0])
        } else {
            None
        }
    }

    /// The worker after the run loop asked for the next job.
    pub open spec fn start(self) -> Self {
        if self.next_job() is Some {
            WorkerView { pending: self.pending.drop_first(), busy: true, ..self }
        } else {
            self
        }
    }

    /// The worker after the running job, if any, came to its end.
    pub open spec fn finish(self) -> Self {
        WorkerView { busy: false, ..self }
    }

    /// The worker after it was torn down: what waited is dropped, what ran is
    /// gone, and nothing is accepted any more.
    pub open spec fn close(self) -> Self {
        WorkerView { pending: Seq::empty(), busy: false, closed: true, ..self }
    }

    /// The worker after one event.
    pub open spec fn step(self, event: WorkerEvent<J>) -> Self {
        match event {
            WorkerEvent::Enqueue(job) => self.enqueue(job),
            WorkerEvent::Start => self.start(),
            WorkerEvent::Finish => self.finish(),
            WorkerEvent::Close => self.close(),
        }
    }

    /// The worker after a sequence of events, first to last.
    pub open spec fn run(self, events: Seq<WorkerEvent<J>>) -> Self
        decreases events.len(),
    {
        if events.len() == 0 {
            self
        } else {
            self.run(events.drop_last()).step(events.last())
        }
    }

    /// The jobs that the worker took into its queue over `events`, in the
    /// order in which they were offered.
    pub open spec fn accepted(self, events: Seq<WorkerEvent<J>>) -> Seq<J>
        decreases events.len(),
    {
        if events.len() == 0 {
            Seq::empty()
        } else {
            let before = events.drop_last();
            let earlier = self.accepted(before);
            match events.last() {
                WorkerEvent::Enqueue(job) => if self.run(before).accepts() {
                    earlier.push(job)
                } else {
                    earlier
                },
                _ => earlier,
            }
        }
    }

    /// The jobs that the worker handed out to run over `events`, in the order
    /// in which they were started.
    pub open spec fn started(self, events: Seq<WorkerEvent<J>>) -> Seq<J>
        decreases events.len(),
    {
        if events.len() == 0 {
            Seq::empty()
        } else {
            let before = events.drop_last();
            let earlier = self.started(before);
            match (events.last(), self.run(before).next_job()) {
                (WorkerEvent::Start, Some(job)) => earlier.push(job),
                _ => earlier,
            }
        }
    }

    /// The job that was started over `events` and has neither come to its
    /// end nor been torn down with the worker.
    pub open spec fn running(self, events: Seq<WorkerEvent<J>>) -> Option<J>
        decreases events.len(),
    {
        if events.len() == 0 {
            None
        } else {
            let before = events.drop_last();
            match events.last() {
                WorkerEvent::Enqueue(_) => self.running(before),
                WorkerEvent::Start => match self.run(before).next_job() {
                    Some(job) => Some(job),
                    None => self.running(before),
                },
                WorkerEvent::Finish => None,
                WorkerEvent::Close => None,
            }
        }
    }

    /// The jobs that were started over `events` and came to their end, in
    /// the order in which they ended.
    pub open spec fn completed(self, events: Seq<WorkerEvent<J>>) -> Seq<J>
        decreases events.len(),
    {
        if events.len() == 0 {
            Seq::empty()
        } else {
            let before = events.drop_last();
            let earlier = self.completed(before);
            match (events.last(), self.running(before)) {
                (WorkerEvent::Finish, Some(job)) => earlier.push(job),
                _ => earlier,
            }
        }
    }
}

/// One sequential executor with its queue.
pub struct Worker<J> {
    id: usize,
    queue: VecDeque<J>,
    busy: bool,
    closed: bool,
}

impl<J> View for Worker<J> {
    type V = WorkerView<J>;

    closed spec fn view(&self) -> WorkerView<J> {
        WorkerView {
            id: self.id as nat,
            pending: self.queue@,
            busy: self.busy,
            closed: self.closed,
        }
    }
}

impl<J> Worker<J> {
    /// A fresh worker with index `id`.
    pub fn new(id: usize) -> (worker: Worker<J>)
        ensures
            worker@ == WorkerView::<J>::init(id as nat),
    {
        Worker { id, queue: VecDeque::new(), busy: false, closed: false }
    }

    /// The worker's index in its pool.
    pub fn id(&self) -> (id: usize)
        ensures
            id == self@.id,
    {
        self.id
    }

    /// The execution context that this worker hands to the jobs it runs: it
    /// reports the worker's index.
    pub fn context(&self) -> (ctx: WorkerContext)
        ensures
            ctx.id() == self@.id,
    {
        let mut ctx = WorkerContext::new();
        set_worker_id(&mut ctx, self.id);
        ctx
    }

    /// How many jobs wait.
    pub fn pending(&self) -> (n: usize)
        ensures
            n == self@.pending.len(),
    {
        self.queue.len()
    }

    /// Whether a job is running.
    pub fn is_busy(&self) -> (busy: bool)
        ensures
            busy == self@.busy,
    {
        self.busy
    }

    /// Whether the worker was torn down.
    pub fn is_closed(&self) -> (closed: bool)
        ensures
            closed == self@.closed,
    {
        self.closed
    }

    /// Offers `job` to the worker. It joins the end of the queue and `true`
    /// is returned; a worker that was torn down drops it and returns `false`.
    pub fn enqueue(&mut self, job: J) -> (accepted: bool)
        ensures
            accepted == old(self)@.accepts(),
            final(self)@ == old(self)@.enqueue(job),
    {
        if self.closed {
            false
        } else {
            self.queue.push_back(job);
            true
        }
    }

    /// Hands out the job to run next and marks the worker busy. Nothing is
    /// handed out while another job runs, when nothing waits, or after the
    /// worker was torn down.
    pub fn start(&mut self) -> (job: Option<J>)
        ensures
            job == old(self)@.next_job(),
            final(self)@ == old(self)@.start(),
    {
        if self.closed || self.busy {
            return None;
        }
        let job = self.queue.pop_front();
        if job.is_some() {
            self.busy = true;
        }
        job
    }

    /// Records that the running job came to its end: the worker is free for
    /// the next one.
    pub fn finish(&mut self)
        ensures
            final(self)@ == old(self)@.finish(),
    {
        self.busy = false;
    }

    /// Tears the worker down. The jobs that waited are dropped, and every job
    /// offered from now on is dropped too.
    pub fn close(&mut self)
        ensures
            final(self)@ == old(self)@.close(),
    {
        self.queue.clear();
        self.busy = false;
        self.closed = true;
    }
}

} // verus!
