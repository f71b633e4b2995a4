//! The identity of the worker that a unit of work is running on.

use vstd::prelude::*;

verus! {

/// The execution context of one worker: it carries the worker's index to the
/// code that runs as part of a unit of work.
#[derive(Clone, Copy, Debug)]
pub struct WorkerContext {
    id: usize,
}

impl WorkerContext {
    /// The index this context reports.
    pub closed spec fn id(&self) -> usize {
        self.id
    }

    /// The context of code that runs on no worker: it reports index 0.
    pub fn new() -> (ctx: WorkerContext)
        ensures
            ctx.id() == 0,
    {
        WorkerContext { id: 0 }
    }
}

/// Records `id` as the index of the worker that owns `ctx`.
pub fn set_worker_id(ctx: &mut WorkerContext, id: usize)
    ensures
        final(ctx).id() == id,
{
    ctx.id = id;
}

/// The index of the worker that owns `ctx`.
pub fn worker_id(ctx: &WorkerContext) -> (id: usize)
    ensures
        id == ctx.id(),
{
    ctx.id
}

} // verus!
