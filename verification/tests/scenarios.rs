use ert::current;
use ert::prelude::{Global, Router, RunVia, Via};
use ert::utils::WorkerContext;
use futures::executor::block_on;
use std::cell::{Cell, RefCell};
use std::collections::HashMap;
use std::future::Future;
use std::pin::Pin;
use std::rc::Rc;

type Job<T> = Pin<Box<dyn Future<Output = T>>>;

type Seat = Rc<RefCell<WorkerContext>>;

fn seat() -> Seat {
    Rc::new(RefCell::new(WorkerContext::new()))
}

/// Runs every job that waits for `worker` and returns the outputs in the
/// order in which the jobs ran.
fn drain<T>(router: &mut Router<Job<T>>, worker: usize, seat: &Seat) -> Vec<T> {
    let mut outputs = Vec::new();
    while let Some((job, ctx)) = router.start(worker) {
        *seat.borrow_mut() = ctx;
        outputs.push(block_on(job));
        router.finish(worker);
    }
    *seat.borrow_mut() = WorkerContext::new();
    outputs
}

#[test]
fn every_key_keeps_its_worker() {
    let seat = seat();
    let mut router: Router<Job<()>> = Router::new(10);
    let seen: Rc<RefCell<HashMap<u64, u64>>> = Rc::new(RefCell::new(HashMap::new()));

    let mut first: Vec<Via<()>> = Vec::new();
    for key in 0u64..100 {
        let (seen, seat) = (seen.clone(), seat.clone());
        let job: Job<()> = Box::pin(async move {
            seen.borrow_mut().insert(key, current(&seat.borrow()));
        });
        first.push(job.via(&mut router, key));
    }
    for worker in 0..10 {
        drain(&mut router, worker, &seat);
    }
    assert_eq!(seen.borrow().len(), 100);
    for (key, via) in first.iter().enumerate() {
        assert_eq!(seen.borrow()[&(key as u64)], via.worker() as u64);
        assert!(via.worker() < 10);
    }

    let checked = Rc::new(Cell::new(0));
    let mut second: Vec<Via<()>> = Vec::new();
    for i in 0u64..10_000 {
        let key = i % 100;
        let (seen, seat, checked) = (seen.clone(), seat.clone(), checked.clone());
        let job: Job<()> = Box::pin(async move {
            assert_eq!(current(&seat.borrow()), seen.borrow()[&key]);
            checked.set(checked.get() + 1);
        });
        second.push(job.via(&mut router, key));
    }
    for worker in 0..10 {
        drain(&mut router, worker, &seat);
    }
    assert_eq!(checked.get(), 10_000);
    for (i, via) in second.iter().enumerate() {
        assert_eq!(via.worker(), first[i % 100].worker());
    }
}

#[test]
fn single_worker_runs_in_submission_order() {
    let seat = seat();
    let mut router: Router<Job<usize>> = Router::new(1);
    let log: Rc<RefCell<Vec<usize>>> = Rc::new(RefCell::new(Vec::new()));

    let mut vias: Vec<Via<usize>> = Vec::new();
    for index in 0usize..500 {
        let log = log.clone();
        let job: Job<usize> = Box::pin(async move {
            log.borrow_mut().push(index);
            index
        });
        // Whatever the key, there is one worker to serve it.
        let via = job.via(&mut router, index * 31);
        assert_eq!(via.worker(), 0);
        vias.push(via);
    }
    assert_eq!(router.pending(0), 500);

    let outputs = drain(&mut router, 0, &seat);
    for (via, output) in vias.iter_mut().zip(outputs) {
        assert!(via.fulfil(output));
    }
    for (index, via) in vias.iter_mut().enumerate() {
        assert_eq!(via.poll(), Some(index));
    }
    assert_eq!(*log.borrow(), (0usize..500).collect::<Vec<_>>());
}

#[test]
fn keys_that_share_a_worker_run_in_submission_order() {
    let seat = seat();
    let mut router: Router<Job<(u64, usize)>> = Router::new(3);

    // Hashes 1, 4, 7 and 10 all fall to worker 1.
    let hashes = [1u64, 4, 7, 10, 4, 1, 10, 7, 7, 1];
    for (index, hash) in hashes.iter().enumerate() {
        let hash = *hash;
        let job: Job<(u64, usize)> = Box::pin(async move { (hash, index) });
        let via: Via<(u64, usize)> = router.via_hashed(hash, job);
        assert_eq!(via.worker(), 1);
    }
    let outputs = drain(&mut router, 1, &seat);
    let expected: Vec<(u64, usize)> =
        hashes.iter().enumerate().map(|(index, hash)| (*hash, index)).collect();
    assert_eq!(outputs, expected);
    assert!(drain(&mut router, 0, &seat).is_empty());
    assert!(drain(&mut router, 2, &seat).is_empty());
}

#[test]
fn work_under_other_keys_is_not_held_up() {
    let seat = seat();
    let mut router: Router<Job<u32>> = Router::new(2);
    let _a: Via<u32> = router.via_hashed(0, Box::pin(async { 1 }));
    let _b: Via<u32> = router.via_hashed(0, Box::pin(async { 2 }));
    let _c: Via<u32> = router.via_hashed(1, Box::pin(async { 3 }));

    // Worker 0 is busy with its first job; worker 1 starts all the same.
    assert!(router.start(0).is_some());
    assert!(router.start(0).is_none());
    assert_eq!(drain(&mut router, 1, &seat), vec![3]);
    router.finish(0);
    assert_eq!(drain(&mut router, 0, &seat), vec![2]);
}

#[test]
fn observed_identity_is_the_index_of_the_worker() {
    let seat = seat();
    let mut router: Router<Job<u64>> = Router::new(16);
    for key in 0u64..400 {
        let seat = seat.clone();
        let job: Job<u64> = Box::pin(async move {
            let before = current(&seat.borrow());
            let after = current(&seat.borrow());
            assert_eq!(before, after);
            before
        });
        let _via = job.via(&mut router, key);
    }
    let mut ran = 0;
    for worker in 0..16 {
        for observed in drain(&mut router, worker, &seat) {
            assert_eq!(observed, worker as u64);
            assert!(observed < 16);
            ran += 1;
        }
    }
    assert_eq!(ran, 400);
}

#[test]
fn identity_outside_any_worker_is_zero() {
    assert_eq!(current(&WorkerContext::new()), 0);
}

/// Tells when the job that holds it is gone.
struct Witness(Rc<Cell<bool>>);

impl Drop for Witness {
    fn drop(&mut self) {
        self.0.set(true);
    }
}

#[test]
fn bridge_of_a_worker_torn_down_before_the_run_stays_pending() {
    let mut router: Router<Job<u32>> = Router::new(4);
    let ran = Rc::new(Cell::new(false));
    let gone = Rc::new(Cell::new(false));
    let (ran2, witness) = (ran.clone(), Witness(gone.clone()));
    let job: Job<u32> = Box::pin(async move {
        let _witness = witness;
        ran2.set(true);
        7
    });
    let mut via = job.via(&mut router, 99u64);
    let worker = via.worker();
    assert!(via.is_pending());
    assert_eq!(router.pending(worker), 1);

    router.close(worker);
    // The job went with the worker, and with the job what would have
    // delivered its output.
    assert!(gone.get());
    assert!(!ran.get());
    via.sever();
    assert!(router.start(worker).is_none());

    // A bounded wait: every poll finds the bridge pending.
    for _ in 0..10_000 {
        assert_eq!(via.poll(), None);
    }
}

#[test]
fn work_routed_to_a_torn_down_worker_is_dropped() {
    let mut router: Router<Job<u32>> = Router::new(2);
    router.close(1);
    assert!(!router.accepts(1));
    assert!(router.accepts(0));
    assert!(!router.accepts(2));

    let gone = Rc::new(Cell::new(false));
    let witness = Witness(gone.clone());
    let mut lost: Via<u32> = router.via_hashed(
        1,
        Box::pin(async move {
            let _witness = witness;
            1
        }),
    );
    assert!(lost.is_severed());
    assert!(gone.get());
    assert_eq!(router.pending(1), 0);
    for _ in 0..100 {
        assert_eq!(lost.poll(), None);
    }

    // The other worker goes on as before.
    let kept: Via<u32> = router.via_hashed(0, Box::pin(async { 2 }));
    assert!(kept.is_pending());
    assert_eq!(router.pending(0), 1);
}

#[test]
fn events_for_a_worker_outside_the_pool_change_nothing() {
    let mut router: Router<Job<u32>> = Router::new(2);
    let _via: Via<u32> = router.via_hashed(0, Box::pin(async { 1 }));
    assert!(router.start(2).is_none());
    router.finish(2);
    router.close(2);
    assert_eq!(router.pending(2), 0);
    assert_eq!(router.pending(0), 1);
    assert_eq!(router.worker_count(), 2);
}

#[test]
fn first_global_submission_installs_a_default_router() {
    let seat = seat();
    let mut global: Global<Router<Job<usize>>> = Global::new();

    let job: Job<usize> = Box::pin(async { 11 });
    let first = job.via_g(&mut global, "key");
    assert!(global.is_installed());
    assert_eq!(global.get().unwrap().worker_count(), 1024);
    assert!(global.get().unwrap().is_detached());
    assert!(first.worker() < 1024);

    let mut workers = vec![first.worker()];
    for _ in 0..50 {
        let job: Job<usize> = Box::pin(async { 12 });
        workers.push(job.via_g(&mut global, "key").worker());
    }
    assert_eq!(global.get().unwrap().worker_count(), 1024);
    assert!(workers.iter().all(|worker| *worker == first.worker()));
    assert_eq!(global.get().unwrap().pending(first.worker()), 51);

    let outputs = Router::with_global_mut(&mut global, |slot| {
        drain(slot.as_mut().unwrap(), first.worker(), &seat)
    });
    assert_eq!(outputs.len(), 51);
    assert_eq!(outputs[0], 11);
    assert!(outputs[1..].iter().all(|output| *output == 12));
}

#[test]
fn global_submission_uses_the_installed_router() {
    let mut global: Global<Router<Job<usize>>> = Global::new();
    Router::new(5).set_as_global(&mut global);
    for key in 0u32..100 {
        let job: Job<usize> = Box::pin(async { 0 });
        let via = job.via_g(&mut global, key);
        assert!(via.worker() < 5);
    }
    assert_eq!(global.get().unwrap().worker_count(), 5);
    assert!(!global.get().unwrap().is_detached());
    let waiting: usize = (0..5).map(|worker| global.get().unwrap().pending(worker)).sum();
    assert_eq!(waiting, 100);
}

#[test]
fn dropping_the_bridge_does_not_cancel_the_work() {
    let seat = seat();
    let mut router: Router<Job<u32>> = Router::new(1);
    let ran = Rc::new(Cell::new(false));
    let ran2 = ran.clone();
    let job: Job<u32> = Box::pin(async move {
        ran2.set(true);
        5
    });
    drop(job.via(&mut router, 1u8));
    assert_eq!(router.pending(0), 1);
    assert_eq!(drain(&mut router, 0, &seat), vec![5]);
    assert!(ran.get());
}
