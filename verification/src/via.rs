//! The bridge that carries the output of a unit of work back to whoever
//! submitted it.
//!
//! A bridge is made when the work is submitted. The side that runs the work
//! delivers its output once, or goes away without delivering; the submitter
//! polls. A bridge whose other side went away stays pending for good: it
//! reports no error, so a caller that waits on it needs a timeout of its own.

use crate::worker::Worker;
use vstd::prelude::*;

verus! {

/// Where a bridge stands.
pub enum Bridge<T> {
    /// No output yet; the other side can still deliver.
    Pending,
    /// The output has arrived and waits for the submitter.
    Delivered(T),
    /// The submitter has taken the output.
    Resolved,
    /// The other side went away without delivering. Nothing will ever arrive.
    Severed,
}

/// What can happen to a bridge.
pub enum BridgeEvent<T> {
    /// The unit of work completed with this output.
    Deliver(T),
    /// The delivering side was dropped.
    Sever,
    /// The submitter polls.
    Poll,
}

impl<T> Bridge<T> {
    /// The bridge as it is made: pending if the unit of work was taken into
    /// a queue, severed if it was dropped.
    pub open spec fn made(taken: bool) -> Self {
        if taken {
            Bridge::Pending
        } else {
            Bridge::Severed
        }
    }

    /// The bridge after the other side offered `value`: the first output is
    /// kept, and only while the bridge is pending.
    pub open spec fn fulfil(self, value: T) -> Self {
        if self is Pending {
            Bridge::Delivered(value)
        } else {
            self
        }
    }

    /// The bridge after the other side went away.
    pub open spec fn sever(self) -> Self {
        if self is Pending {
            Bridge::Severed
        } else {
            self
        }
    }

    /// What a poll returns now: the output, if it has arrived and was not
    /// taken before.
    pub open spec fn output(self) -> Option<T> {
        match self {
            Bridge::Delivered(value) => Some(value),
            _ => None,
        }
    }

    /// The bridge after a poll.
    pub open spec fn poll(self) -> Self {
        if self is Delivered {
            Bridge::Resolved
        } else {
            self
        }
    }

    /// The bridge after one event.
    pub open spec fn step(self, event: BridgeEvent<T>) -> Self {
        match event {
            BridgeEvent::Deliver(value) => self.fulfil(value),
            BridgeEvent::Sever => self.sever(),
            BridgeEvent::Poll => self.poll(),
        }
    }

    /// The bridge after a sequence of events, first to last.
    pub open spec fn run(self, events: Seq<BridgeEvent<T>>) -> Self
        decreases events.len(),
    {
        if events.len() == 0 {
            self
        } else {
            self.run(events.drop_last()).step(events.last())
        }
    }

    /// The outputs that the polls among `events` returned, in order.
    pub open spec fn outputs(self, events: Seq<BridgeEvent<T>>) -> Seq<T>
        decreases events.len(),
    {
        if events.len() == 0 {
            Seq::empty()
        } else {
            let before = events.drop_last();
            let earlier = self.outputs(before);
            match (events.last(), self.run(before).output()) {
                (BridgeEvent::Poll, Some(value)) => earlier.push(value),
                _ => earlier,
            }
        }
    }
}

/// What holds of a bridge after any sequence of events.
spec fn yields_once<T>(bridge: Bridge<T>, events: Seq<BridgeEvent<T>>) -> bool {
    let now = bridge.run(events);
    let outputs = bridge.outputs(events);
    &&& outputs.len() <= 1
    &&& now is Pending ==> bridge is Pending && outputs.len() == 0
    &&& now is Delivered ==> outputs.len() == 0 && (bridge is Pending || bridge == now)
    &&& now is Severed ==> outputs.len() == 0 && (bridge is Pending || bridge is Severed)
    &&& now is Resolved ==> if bridge is Resolved {
        outputs.len() == 0
    } else {
        outputs.len() == 1 && !(bridge is Severed)
    }
}

proof fn lemma_yields_once<T>(bridge: Bridge<T>, events: Seq<BridgeEvent<T>>)
    ensures
        yields_once(bridge, events),
    decreases events.len(),
{
    if events.len() > 0 {
        lemma_yields_once(bridge, events.drop_last());
    }
}

/// At most one output ever comes out of a bridge, whatever is delivered to it
/// and however often it is polled.
pub proof fn lemma_at_most_one_output<T>(bridge: Bridge<T>, events: Seq<BridgeEvent<T>>)
    ensures
        bridge.outputs(events).len() <= 1,
{
    lemma_yields_once(bridge, events);
}

/// A severed bridge stays pending for good: it stays severed and no poll
/// returns an output, whatever is delivered to it afterwards.
pub proof fn lemma_severed_never_resolves<T>(events: Seq<BridgeEvent<T>>)
    ensures
        Bridge::<T>::Severed.run(events) is Severed,
        Bridge::<T>::Severed.outputs(events).len() == 0,
{
    lemma_yields_once(Bridge::<T>::Severed, events);
}

/// Whether `events[at]` delivers `value` before anything else was delivered
/// and before the delivering side went away.
pub open spec fn wins<T>(events: Seq<BridgeEvent<T>>, at: int, value: T) -> bool {
    &&& 0 <= at < events.len()
    &&& events[at] == BridgeEvent::Deliver(value)
    &&& forall|earlier: int| 0 <= earlier < at ==> events[earlier] is Poll
}

/// What holds of a fresh bridge after any sequence of events.
spec fn first_wins<T>(events: Seq<BridgeEvent<T>>) -> bool {
    let now = Bridge::<T>::Pending.run(events);
    let outputs = Bridge::<T>::Pending.outputs(events);
    &&& now is Pending ==> outputs.len() == 0 && forall|at: int|
        0 <= at < events.len() ==> events[at] is Poll
    &&& now is Delivered ==> outputs.len() == 0 && exists|at: int| wins(events, at, now->0)
    &&& now is Resolved ==> outputs.len() == 1 && exists|at: int| wins(events, at, outputs[0])
    &&& now is Severed ==> outputs.len() == 0
}

/// A delivery that has won has won for good.
proof fn lemma_still_wins<T>(events: Seq<BridgeEvent<T>>, at: int, value: T)
    requires
        events.len() > 0,
        wins(events.drop_last(), at, value),
    ensures
        wins(events, at, value),
{
    let before = events.drop_last();
    assert(before[at] == events[at]);
    assert forall|earlier: int| 0 <= earlier < at implies events[earlier] is Poll by {
        assert(before[earlier] is Poll);
    }
}

proof fn lemma_first_wins<T>(events: Seq<BridgeEvent<T>>)
    ensures
        first_wins(events),
    decreases events.len(),
{
    if events.len() > 0 {
        let before = events.drop_last();
        lemma_first_wins(before);
        let prev = Bridge::<T>::Pending.run(before);
        let now = Bridge::<T>::Pending.run(events);
        let outputs = Bridge::<T>::Pending.outputs(events);
        if now is Pending {
            assert forall|at: int| 0 <= at < events.len() implies events[at] is Poll by {
                if at < before.len() {
                    assert(before[at] is Poll);
                }
            }
        } else if now is Delivered {
            if prev is Pending {
                assert forall|at: int| 0 <= at < events.len() - 1 implies events[at] is Poll by {
                    assert(before[at] is Poll);
                }
                assert(wins(events, events.len() - 1, now->0));
            } else {
                let at = choose|at: int| wins(before, at, prev->0);
                lemma_still_wins(events, at, now->0);
            }
            assert(exists|at: int| wins(events, at, now->0));
        } else if now is Resolved {
            if prev is Delivered {
                let at = choose|at: int| wins(before, at, prev->0);
                lemma_still_wins(events, at, outputs[0]);
            } else {
                let at = choose|at: int|
                    wins(before, at, Bridge::<T>::Pending.outputs(before)[0]);
                lemma_still_wins(events, at, outputs[0]);
            }
            assert(exists|at: int| wins(events, at, outputs[0]));
        }
    }
}

/// The first delivery wins: an output that comes out of a fresh bridge is the
/// first value that was delivered to it, and it was delivered before the
/// delivering side went away.
pub proof fn lemma_first_delivery_wins<T>(events: Seq<BridgeEvent<T>>)
    ensures
        Bridge::<T>::Pending.outputs(events).len() > 0 ==> exists|at: int|
            wins(events, at, Bridge::<T>::Pending.outputs(events)[0]),
{
    lemma_first_wins(events);
    lemma_yields_once(Bridge::<T>::Pending, events);
}

/// The state of a [`Via`], as contracts see it.
pub struct ViaView<T> {
    /// The worker that the unit of work was routed to.
    pub worker: nat,
    /// Where the bridge stands.
    pub bridge: Bridge<T>,
}

/// The submitter's end of a bridge.
pub struct Via<T> {
    worker: usize,
    bridge: Bridge<T>,
}

impl<T> View for Via<T> {
    type V = ViaView<T>;

    closed spec fn view(&self) -> ViaView<T> {
        ViaView { worker: self.worker as nat, bridge: self.bridge }
    }
}

impl<T> Via<T> {
    /// Hands `job` to `worker` and returns the bridge to its output. If the
    /// worker does not take the job, the job is dropped and the bridge is
    /// severed from the start.
    pub fn new<J>(worker: &mut Worker<J>, job: J) -> (handle: Via<T>)
        ensures
            final(worker)@ == old(worker)@.enqueue(job),
            handle@.worker == old(worker)@.id,
            handle@.bridge == Bridge::<T>::made(old(worker)@.accepts()),
    {
        let id = worker.id();
        if worker.enqueue(job) {
            Via { worker: id, bridge: Bridge::Pending }
        } else {
            Via { worker: id, bridge: Bridge::Severed }
        }
    }

    /// The index of the worker that the unit of work was routed to.
    pub fn worker(&self) -> (worker: usize)
        ensures
            worker == self@.worker,
    {
        self.worker
    }

    /// Whether the output can still arrive.
    pub fn is_pending(&self) -> (pending: bool)
        ensures
            pending == (self@.bridge is Pending),
    {
        match self.bridge {
            Bridge::Pending => true,
            _ => false,
        }
    }

    /// Whether the other side went away without delivering.
    pub fn is_severed(&self) -> (severed: bool)
        ensures
            severed == (self@.bridge is Severed),
    {
        match self.bridge {
            Bridge::Severed => true,
            _ => false,
        }
    }

    /// Delivers the output of the unit of work. Only the first output of a
    /// pending bridge is kept; `false` says that `value` was dropped.
    pub fn fulfil(&mut self, value: T) -> (kept: bool)
        ensures
            kept == (old(self)@.bridge is Pending),
            final(self)@.bridge == old(self)@.bridge.fulfil(value),
            final(self)@.worker == old(self)@.worker,
    {
        if self.is_pending() {
            self.bridge = Bridge::Delivered(value);
            true
        } else {
            false
        }
    }

    /// Records that the delivering side went away.
    pub fn sever(&mut self)
        ensures
            final(self)@.bridge == old(self)@.bridge.sever(),
            final(self)@.worker == old(self)@.worker,
    {
        if self.is_pending() {
            self.bridge = Bridge::Severed;
        }
    }

    /// Polls the bridge: the output if it has arrived and was not taken
    /// before, `None` while the bridge is pending, and `None` for good once it
    /// is resolved or severed.
    pub fn poll(&mut self) -> (output: Option<T>)
        ensures
            output == old(self)@.bridge.output(),
            final(self)@.bridge == old(self)@.bridge.poll(),
            final(self)@.worker == old(self)@.worker,
    {
        let mut taken = Bridge::Resolved;
        std::mem::swap(&mut self.bridge, &mut taken);
        match taken {
            Bridge::Delivered(value) => Some(value),
            other => {
                self.bridge = other;
                None
            },
        }
    }
}

} // verus!
