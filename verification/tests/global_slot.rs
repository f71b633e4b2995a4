use ert::prelude::{Global, Router, Via};
use std::cell::Cell;

#[test]
fn slot_starts_empty() {
    let global: Global<Router<u8>> = Global::new();
    assert!(!global.is_installed());
    assert!(global.get().is_none());
    assert!(Router::with_global(&global, |router| router.is_none()));
}

#[test]
fn installed_router_is_the_global_one() {
    let mut global: Global<Router<u8>> = Global::new();
    Router::new(3).set_as_global(&mut global);
    assert!(global.is_installed());
    assert_eq!(global.get().unwrap().worker_count(), 3);
    assert_eq!(Router::with_global(&global, |router| router.unwrap().worker_count()), 3);
}

#[test]
fn install_replaces_the_router_that_was_there() {
    let mut global: Global<Router<u8>> = Global::new();
    Router::new(3).set_as_global(&mut global);
    Router::new(8).set_as_global(&mut global);
    assert_eq!(global.get().unwrap().worker_count(), 8);
}

#[test]
fn with_global_mut_leaves_what_the_closure_left() {
    let mut global: Global<Router<u8>> = Global::new();
    let was_empty = Router::with_global_mut(&mut global, |slot| {
        let was_empty = slot.is_none();
        *slot = Some(Router::new(2));
        was_empty
    });
    assert!(was_empty);
    assert_eq!(global.get().unwrap().worker_count(), 2);

    Router::with_global_mut(&mut global, |slot| {
        let _via: Via<()> = slot.as_mut().unwrap().via_hashed(1, 9);
    });
    assert_eq!(global.get().unwrap().pending(1), 1);

    Router::with_global_mut(&mut global, |slot| *slot = None);
    assert!(!global.is_installed());
}

#[test]
fn install_default_makes_a_router_only_for_an_empty_slot() {
    let made = Cell::new(0);
    let mut global: Global<Router<u8>> = Global::new();

    assert!(global.install_default(|| {
        made.set(made.get() + 1);
        Router::run_on_thread(4)
    }));
    assert_eq!(made.get(), 1);
    assert_eq!(global.get().unwrap().worker_count(), 4);

    assert!(!global.install_default(|| {
        made.set(made.get() + 1);
        Router::run_on_thread(9)
    }));
    assert_eq!(made.get(), 1);
    assert_eq!(global.get().unwrap().worker_count(), 4);
}

#[test]
fn routers_know_how_they_are_run() {
    let attached: Router<u8> = Router::new(1);
    assert!(!attached.is_detached());
    assert_eq!(attached.worker_count(), 1);
    let detached: Router<u8> = Router::run_on_thread(6);
    assert!(detached.is_detached());
    assert_eq!(detached.worker_count(), 6);
}

#[test]
fn no_router_without_a_worker() {
    assert!(Router::<u8>::try_new(0).is_none());
    assert!(Router::<u8>::try_run_on_thread(0).is_none());
    let one = Router::<u8>::try_new(1).unwrap();
    assert_eq!(one.worker_count(), 1);
    assert!(!one.is_detached());
    let many = Router::<u8>::try_run_on_thread(100).unwrap();
    assert_eq!(many.worker_count(), 100);
    assert!(many.is_detached());
}
