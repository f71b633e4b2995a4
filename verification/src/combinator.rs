//! Submission written from the side of the unit of work: `job.via(router, key)`.

use crate::global::Global;
use crate::router::{Event, Router, RouterView, DEFAULT_WORKERS};
use crate::via::{Bridge, Via};
use crate::worker::WorkerEvent;
use std::future::Future;
use std::hash::Hash;
use vstd::prelude::*;

verus! {

/// The router that a globally routed unit of work is submitted to: the
/// installed one, or a fresh detached router of [`DEFAULT_WORKERS`] workers
/// where none is installed.
pub open spec fn global_router<J>(slot: Option<Router<J>>) -> RouterView<J> {
    match slot {
        Some(router) => router@,
        None => RouterView::<J>::init(DEFAULT_WORKERS as nat, true),
    }
}

/// Makes the router that serves globally routed work where none is installed.
fn default_router<J>() -> (made: Router<J>)
    ensures
        made@ == global_router(None::<Router<J>>),
        made@.wf(),
{
    Router::run_on_thread(DEFAULT_WORKERS)
}

/// A unit of work that can be routed: every future is one, and the bridge
/// carries what the future yields.
pub trait RunVia<T>: Sized {
    /// Submits this unit of work to `router` under `key`, and returns the
    /// bridge to its output.
    fn via<K: Hash>(self, router: &mut Router<Self>, key: K) -> (handle: Via<T>)
        requires
            old(router)@.wf(),
        ensures
            final(router)@.wf(),
            final(router)@.workers.len() == old(router)@.workers.len(),
            0 <= handle@.worker < old(router)@.workers.len(),
            final(router)@ == old(router)@.at(handle@.worker as int, WorkerEvent::Enqueue(self)),
            exists|hash: u64|
                handle@.worker == #[trigger] old(router)@.target(hash)
                    && final(router)@ == old(router)@.step(Event::Submit { hash, job: self }),
            handle@.bridge == Bridge::<T>::made(old(router)@.accepts(handle@.worker as int)),
    ;

    /// Submits this unit of work to the global router under `key`, and
    /// returns the bridge to its output. Where no router is installed, a
    /// detached one of [`DEFAULT_WORKERS`] workers is made and installed
    /// first; an installed router is used as it is.
    fn via_g<K: Hash>(self, global: &mut Global<Router<Self>>, key: K) -> (handle: Via<T>)
        requires
            old(global)@ matches Some(router) ==> router@.wf(),
        ensures
            final(global)@ is Some,
            final(global)@->0@.wf(),
            final(global)@->0@.workers.len() == global_router(old(global)@).workers.len(),
            0 <= handle@.worker < global_router(old(global)@).workers.len(),
            final(global)@->0@ == global_router(old(global)@).at(
                handle@.worker as int,
                WorkerEvent::Enqueue(self),
            ),
            exists|hash: u64|
                handle@.worker == #[trigger] global_router(old(global)@).target(hash)
                    && final(global)@->0@ == global_router(old(global)@).step(
                    Event::Submit { hash, job: self },
                ),
            handle@.bridge == Bridge::<T>::made(
                global_router(old(global)@).accepts(handle@.worker as int),
            ),
    ;
}

impl<U: Future> RunVia<U::Output> for U {
    fn via<K: Hash>(self, router: &mut Router<U>, key: K) -> (handle: Via<U::Output>) {
        Router::via(router, key, self)
    }

    fn via_g<K: Hash>(self, global: &mut Global<Router<U>>, key: K) -> (handle: Via<U::Output>) {
        global.install_default(default_router::<U>);
        let mut router = global.take().unwrap();
        let handle = Router::via(&mut router, key, self);
        global.install(router);
        handle
    }
}

} // verus!
