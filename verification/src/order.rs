//! The order in which work is served.
//!
//! Everything here is stated of histories: of what a fresh worker, or a fresh
//! router, did over a sequence of events, whatever that sequence is. The
//! functions that change a worker or a router say which event they are, so
//! what is proved of all sequences holds of every worker and every router
//! that the library hands out.

use crate::dispatch::route;
use crate::router::{trace_of, Event, RouterView};
use crate::worker::{WorkerEvent, WorkerView};
use vstd::prelude::*;

verus! {

/// What holds of a fresh worker after any sequence of events.
spec fn served_in_order<J>(id: nat, events: Seq<WorkerEvent<J>>) -> bool {
    let fresh = WorkerView::<J>::init(id);
    let now = fresh.run(events);
    let accepted = fresh.accepted(events);
    let started = fresh.started(events);
    let completed = fresh.completed(events);
    let running = fresh.running(events);
    &&& now.id == id
    &&& now.busy == (running is Some)
    &&& now.closed ==> !now.busy && now.pending.len() == 0
    &&& !now.closed ==> started + now.pending == accepted
    &&& started.is_prefix_of(accepted)
    &&& completed.is_prefix_of(started)
    &&& started.len() <= completed.len() + 1
    &&& running matches Some(job) ==> started == completed.push(job)
    &&& running is None && !now.closed ==> started == completed
}

proof fn lemma_served_in_order<J>(id: nat, events: Seq<WorkerEvent<J>>)
    ensures
        served_in_order(id, events),
    decreases events.len(),
{
    let fresh = WorkerView::<J>::init(id);
    if events.len() == 0 {
        assert(fresh.started(events) + fresh.run(events).pending =~= fresh.accepted(events));
    } else {
        let before = events.drop_last();
        lemma_served_in_order(id, before);
        let prev = fresh.run(before);
        let now = fresh.run(events);
        let accepted = fresh.accepted(events);
        let started = fresh.started(events);
        let completed = fresh.completed(events);
        match events.last() {
            WorkerEvent::Enqueue(job) => {
                if prev.accepts() {
                    assert(started + now.pending =~= accepted);
                }
            },
            WorkerEvent::Start => {
                if prev.next_job() is Some {
                    assert(started + now.pending =~= accepted);
                }
            },
            WorkerEvent::Finish => {},
            WorkerEvent::Close => {},
        }
    }
}

/// A worker serves its jobs in the order in which it accepted them: over any
/// sequence of events, the jobs that a fresh worker started are the first of
/// those it accepted, in the same order, and the jobs that came to their end
/// are the first of those it started, in the same order.
pub proof fn lemma_worker_serves_in_order<J>(id: nat, events: Seq<WorkerEvent<J>>)
    ensures
        WorkerView::<J>::init(id).started(events).is_prefix_of(
            WorkerView::<J>::init(id).accepted(events),
        ),
        WorkerView::<J>::init(id).completed(events).is_prefix_of(
            WorkerView::<J>::init(id).started(events),
        ),
        WorkerView::<J>::init(id).completed(events).is_prefix_of(
            WorkerView::<J>::init(id).accepted(events),
        ),
{
    lemma_served_in_order(id, events);
}

/// A worker runs one job at a time: when a fresh worker hands out a job,
/// after any sequence of events, every job that it started before has come
/// to its end.
pub proof fn lemma_worker_runs_one_at_a_time<J>(id: nat, events: Seq<WorkerEvent<J>>)
    requires
        WorkerView::<J>::init(id).run(events).next_job() is Some,
    ensures
        WorkerView::<J>::init(id).running(events) is None,
        WorkerView::<J>::init(id).completed(events) == WorkerView::<J>::init(id).started(events),
{
    lemma_served_in_order(id, events);
}

/// A worker keeps its index, whatever happens to it.
pub proof fn lemma_worker_keeps_its_index<J>(id: nat, events: Seq<WorkerEvent<J>>)
    ensures
        WorkerView::<J>::init(id).run(events).id == id,
{
    lemma_served_in_order(id, events);
}

/// The jobs that the worker with index `worker` accepted while a fresh router
/// of `workers` workers went through `events`, in the order of submission.
pub open spec fn accepted_by<J>(workers: nat, events: Seq<Event<J>>, worker: int) -> Seq<J> {
    WorkerView::<J>::init(worker as nat).accepted(trace_of(events, worker, workers))
}

/// The jobs that the worker with index `worker` started while a fresh router
/// of `workers` workers went through `events`, in the order in which they
/// were started.
pub open spec fn started_by<J>(workers: nat, events: Seq<Event<J>>, worker: int) -> Seq<J> {
    WorkerView::<J>::init(worker as nat).started(trace_of(events, worker, workers))
}

/// The jobs that came to their end on the worker with index `worker` while a
/// fresh router of `workers` workers went through `events`, in the order in
/// which they ended.
pub open spec fn completed_by<J>(workers: nat, events: Seq<Event<J>>, worker: int) -> Seq<J> {
    WorkerView::<J>::init(worker as nat).completed(trace_of(events, worker, workers))
}

/// Whether the unit of work submitted by `events[at]` to a fresh router of
/// `workers` workers was taken into the queue of its worker: whether that
/// worker had not been torn down by then.
pub open spec fn taken<J>(workers: nat, events: Seq<Event<J>>, at: int) -> bool
    recommends
        0 <= at < events.len(),
        events[at] is Submit,
{
    let worker = route(events[at]->hash, workers) as int;
    WorkerView::<J>::init(worker as nat).run(
        trace_of(events.take(at), worker, workers),
    ).accepts()
}

/// The place that the unit of work submitted by `events[at]` takes in the
/// order of its worker: the number of jobs that the worker accepted before.
pub open spec fn rank<J>(workers: nat, events: Seq<Event<J>>, at: int) -> nat
    recommends
        0 <= at < events.len(),
        events[at] is Submit,
{
    accepted_by(workers, events.take(at), route(events[at]->hash, workers) as int).len()
}

/// A pool keeps its size, and how it is run, whatever happens to it.
pub proof fn lemma_router_keeps_its_size<J>(workers: nat, detached: bool, events: Seq<Event<J>>)
    ensures
        RouterView::<J>::init(workers, detached).run(events).workers.len() == workers,
        RouterView::<J>::init(workers, detached).run(events).detached == detached,
    decreases events.len(),
{
    if events.len() > 0 {
        lemma_router_keeps_its_size(workers, detached, events.drop_last());
    }
}

/// A router is its workers side by side: after any sequence of events, each
/// worker of a fresh router is where a fresh worker is after the events that
/// fell to it.
pub proof fn lemma_router_is_its_workers<J>(
    workers: nat,
    detached: bool,
    events: Seq<Event<J>>,
    worker: int,
)
    requires
        0 <= worker < workers,
    ensures
        RouterView::<J>::init(workers, detached).run(events).workers[worker] == WorkerView::<
            J,
        >::init(worker as nat).run(trace_of(events, worker, workers)),
    decreases events.len(),
{
    lemma_router_keeps_its_size(workers, detached, events);
    if events.len() > 0 {
        let before = events.drop_last();
        lemma_router_keeps_its_size(workers, detached, before);
        lemma_router_is_its_workers(workers, detached, before, worker);
        let earlier = trace_of(before, worker, workers);
        match events.last().seen_by(worker, workers) {
            Some(event) => {
                assert(earlier.push(event).drop_last() =~= earlier);
            },
            None => {},
        }
    }
}

/// Every router that a fresh one can become is well formed.
pub proof fn lemma_router_stays_well_formed<J>(workers: nat, detached: bool, events: Seq<Event<J>>)
    requires
        workers > 0,
    ensures
        RouterView::<J>::init(workers, detached).run(events).wf(),
{
    let now = RouterView::<J>::init(workers, detached).run(events);
    assert forall|i: int| 0 <= i < now.workers.len() implies (#[trigger] now.workers[i]).id
        == i by {
        lemma_router_keeps_its_size(workers, detached, events);
        lemma_router_is_its_workers(workers, detached, events, i);
        lemma_worker_keeps_its_index(i as nat, trace_of(events, i, workers));
    }
    lemma_router_keeps_its_size(workers, detached, events);
}

/// Each worker of a pool serves its jobs in the order in which they were
/// submitted to it: the jobs that came to their end on a worker are the first
/// of those it started, which are the first of those it accepted, each time
/// in the same order.
pub proof fn lemma_pool_serves_in_order<J>(workers: nat, events: Seq<Event<J>>, worker: int)
    ensures
        started_by(workers, events, worker).is_prefix_of(accepted_by(workers, events, worker)),
        completed_by(workers, events, worker).is_prefix_of(started_by(workers, events, worker)),
        completed_by(workers, events, worker).is_prefix_of(accepted_by(workers, events, worker)),
{
    lemma_worker_serves_in_order(worker as nat, trace_of(events, worker, workers));
}

/// What a worker accepted only grows, and a worker that was torn down stays
/// torn down.
proof fn lemma_history_grows<J>(workers: nat, events: Seq<Event<J>>, upto: int, worker: int)
    requires
        0 <= upto <= events.len(),
    ensures
        accepted_by(workers, events.take(upto), worker).is_prefix_of(
            accepted_by(workers, events, worker),
        ),
        WorkerView::<J>::init(worker as nat).run(
            trace_of(events.take(upto), worker, workers),
        ).closed ==> WorkerView::<J>::init(worker as nat).run(
            trace_of(events, worker, workers),
        ).closed,
    decreases events.len(),
{
    if upto == events.len() {
        assert(events.take(upto) =~= events);
    } else {
        let before = events.drop_last();
        assert(before.take(upto) =~= events.take(upto));
        lemma_history_grows(workers, before, upto, worker);
        let earlier = trace_of(before, worker, workers);
        match events.last().seen_by(worker, workers) {
            Some(event) => {
                assert(earlier.push(event).drop_last() =~= earlier);
            },
            None => {},
        }
    }
}

/// A submission that is taken goes to the end of its worker's order.
proof fn lemma_taken_is_appended<J>(workers: nat, events: Seq<Event<J>>, at: int)
    requires
        workers > 0,
        0 <= at < events.len(),
        events[at] is Submit,
        taken(workers, events, at),
    ensures
        accepted_by(workers, events.take(at + 1), route(events[at]->hash, workers) as int)
            == accepted_by(workers, events.take(at), route(events[at]->hash, workers) as int).push(
            events[at]->job,
        ),
{
    let worker = route(events[at]->hash, workers) as int;
    let upto = events.take(at + 1);
    assert(upto.drop_last() =~= events.take(at));
    assert(upto.last() == events[at]);
    let earlier = trace_of(events.take(at), worker, workers);
    assert(earlier.push(WorkerEvent::Enqueue(events[at]->job)).drop_last() =~= earlier);
}

/// A unit of work keeps its place. A submission to a fresh router that was
/// taken into the queue stands in the order of its worker at its rank, for
/// good; and once as many jobs have come to their end on that worker, the job
/// that ended at that rank is this one.
pub proof fn lemma_rank_is_kept<J>(workers: nat, events: Seq<Event<J>>, at: int)
    requires
        workers > 0,
        0 <= at < events.len(),
        events[at] is Submit,
        taken(workers, events, at),
    ensures
        ({
            let worker = route(events[at]->hash, workers) as int;
            let place = rank(workers, events, at) as int;
            let accepted = accepted_by(workers, events, worker);
            let completed = completed_by(workers, events, worker);
            &&& place < accepted.len()
            &&& accepted[place] == events[at]->job
            &&& place < completed.len() ==> completed[place] == events[at]->job
        }),
{
    let worker = route(events[at]->hash, workers) as int;
    let place = rank(workers, events, at) as int;
    let accepted = accepted_by(workers, events, worker);
    let completed = completed_by(workers, events, worker);
    let with_job = accepted_by(workers, events.take(at + 1), worker);
    lemma_taken_is_appended(workers, events, at);
    lemma_history_grows(workers, events, at + 1, worker);
    lemma_pool_serves_in_order(workers, events, worker);
    assert(with_job[place] == events[at]->job);
    assert(accepted.subrange(0, with_job.len() as int)[place] == accepted[place]);
    if place < completed.len() {
        assert(accepted.subrange(0, completed.len() as int)[place] == accepted[place]);
    }
}

/// Work that shares a worker is served in the order of its submission,
/// whether or not it shares a key. Of two submissions to a fresh router that
/// fall to the same worker, the later has the higher rank, unless the worker
/// was torn down before the earlier one: then both are dropped. By
/// [`lemma_rank_is_kept`] each comes to its end at its rank, so the later
/// never ends before the earlier.
pub proof fn lemma_shared_worker_keeps_order<J>(
    workers: nat,
    events: Seq<Event<J>>,
    first: int,
    second: int,
)
    requires
        workers > 0,
        0 <= first < second < events.len(),
        events[first] is Submit,
        events[second] is Submit,
        route(events[first]->hash, workers) == route(events[second]->hash, workers),
    ensures
        taken(workers, events, second) ==> taken(workers, events, first),
        taken(workers, events, first) ==> rank(workers, events, first) < rank(
            workers,
            events,
            second,
        ),
        rank(workers, events, first) <= rank(workers, events, second),
        rank(workers, events, second) < completed_by(
            workers,
            events,
            route(events[second]->hash, workers) as int,
        ).len() ==> rank(workers, events, first) < completed_by(
            workers,
            events,
            route(events[first]->hash, workers) as int,
        ).len(),
{
    let worker = route(events[first]->hash, workers) as int;
    let until_second = events.take(second);
    assert(until_second.take(first) =~= events.take(first));
    assert(until_second.take(first + 1) =~= events.take(first + 1));
    lemma_history_grows(workers, until_second, first, worker);
    lemma_history_grows(workers, until_second, first + 1, worker);
    if taken(workers, events, first) {
        lemma_taken_is_appended(workers, events, first);
    }
}

/// Work that shares a key is served in the order of its submission. Two
/// submissions whose keys hash alike fall to the same worker, so what
/// [`lemma_shared_worker_keeps_order`] says of a shared worker holds of them.
pub proof fn lemma_same_key_keeps_order<J>(
    workers: nat,
    events: Seq<Event<J>>,
    first: int,
    second: int,
)
    requires
        workers > 0,
        0 <= first < second < events.len(),
        events[first] is Submit,
        events[second] is Submit,
        events[first]->hash == events[second]->hash,
    ensures
        route(events[first]->hash, workers) == route(events[second]->hash, workers),
        taken(workers, events, second) ==> taken(workers, events, first),
        taken(workers, events, first) ==> rank(workers, events, first) < rank(
            workers,
            events,
            second,
        ),
        rank(workers, events, first) <= rank(workers, events, second),
        rank(workers, events, second) < completed_by(
            workers,
            events,
            route(events[second]->hash, workers) as int,
        ).len() ==> rank(workers, events, first) < completed_by(
            workers,
            events,
            route(events[first]->hash, workers) as int,
        ).len(),
{
    lemma_shared_worker_keeps_order(workers, events, first, second);
}

/// A pool runs one job at a time on each worker: when a worker of a fresh
/// router is handed a job, after any sequence of events, every job that the
/// worker started before has come to its end.
pub proof fn lemma_pool_runs_one_at_a_time<J>(
    workers: nat,
    detached: bool,
    events: Seq<Event<J>>,
    worker: int,
)
    requires
        RouterView::<J>::init(workers, detached).run(events).next_job(worker) is Some,
    ensures
        completed_by(workers, events, worker) == started_by(workers, events, worker),
{
    lemma_router_keeps_its_size(workers, detached, events);
    lemma_router_is_its_workers(workers, detached, events, worker);
    lemma_worker_runs_one_at_a_time(worker as nat, trace_of(events, worker, workers));
}

/// Whether a submission is taken is read off the router: the unit of work
/// submitted by `events[at]` is taken just when the router, as it stands
/// before that event, accepts work for the worker that serves the key.
pub proof fn lemma_taken_is_accepted<J>(
    workers: nat,
    detached: bool,
    events: Seq<Event<J>>,
    at: int,
)
    requires
        workers > 0,
        0 <= at < events.len(),
        events[at] is Submit,
    ensures
        ({
            let before = RouterView::<J>::init(workers, detached).run(events.take(at));
            taken(workers, events, at) == before.accepts(before.target(events[at]->hash))
        }),
{
    let worker = route(events[at]->hash, workers) as int;
    lemma_router_keeps_its_size(workers, detached, events.take(at));
    lemma_router_is_its_workers(workers, detached, events.take(at), worker);
}

/// A router has a worker for every key: whatever the hash, the worker that
/// serves it is one of the pool.
pub proof fn lemma_every_key_has_a_worker<J>(router: RouterView<J>, hash: u64)
    requires
        router.wf(),
    ensures
        0 <= router.target(hash) < router.workers.len(),
        router.workers[router.target(hash)].id == router.target(hash),
{
}

/// The index that a worker reports lies within the pool and never changes:
/// after any sequence of events, the worker at index `worker` of a fresh
/// router reports `worker`.
pub proof fn lemma_identity_is_stable<J>(
    workers: nat,
    detached: bool,
    events: Seq<Event<J>>,
    worker: int,
)
    requires
        0 <= worker < workers,
    ensures
        RouterView::<J>::init(workers, detached).run(events).workers.len() == workers,
        RouterView::<J>::init(workers, detached).run(events).workers[worker].id == worker,
{
    lemma_router_keeps_its_size(workers, detached, events);
    lemma_router_is_its_workers(workers, detached, events, worker);
    lemma_worker_keeps_its_index(worker as nat, trace_of(events, worker, workers));
}

} // verus!
