use ert::prelude::Via;
use ert::worker::Worker;

fn open_bridge() -> Via<&'static str> {
    let mut worker: Worker<u8> = Worker::new(2);
    let via = Via::new(&mut worker, 0);
    assert_eq!(worker.pending(), 1);
    via
}

#[test]
fn bridge_is_pending_until_the_output_arrives() {
    let mut via = open_bridge();
    assert_eq!(via.worker(), 2);
    assert!(via.is_pending());
    assert!(!via.is_severed());
    assert_eq!(via.poll(), None);
    assert_eq!(via.poll(), None);
    assert!(via.is_pending());
}

#[test]
fn bridge_resolves_to_the_output_once() {
    let mut via = open_bridge();
    assert!(via.fulfil("done"));
    assert!(!via.is_pending());
    assert_eq!(via.poll(), Some("done"));
    assert_eq!(via.poll(), None);
    assert_eq!(via.poll(), None);
}

#[test]
fn bridge_keeps_the_first_output_only() {
    let mut via = open_bridge();
    assert!(via.fulfil("first"));
    assert!(!via.fulfil("second"));
    assert_eq!(via.poll(), Some("first"));
    assert!(!via.fulfil("third"));
    assert_eq!(via.poll(), None);
}

#[test]
fn failure_is_an_output_like_any_other() {
    let mut worker: Worker<u8> = Worker::new(0);
    let mut via: Via<Result<u32, String>> = Via::new(&mut worker, 0);
    assert!(via.fulfil(Err(String::from("no such file"))));
    assert_eq!(via.poll(), Some(Err(String::from("no such file"))));
}

#[test]
fn severed_bridge_stays_pending() {
    let mut via = open_bridge();
    via.sever();
    assert!(via.is_severed());
    for _ in 0..1000 {
        assert_eq!(via.poll(), None);
    }
    assert!(!via.fulfil("late"));
    assert_eq!(via.poll(), None);
    assert!(via.is_severed());
}

#[test]
fn severing_after_delivery_loses_nothing() {
    let mut via = open_bridge();
    assert!(via.fulfil("done"));
    via.sever();
    assert!(!via.is_severed());
    assert_eq!(via.poll(), Some("done"));
}

#[test]
fn bridge_to_a_closed_worker_is_severed_from_the_start() {
    let mut worker: Worker<u8> = Worker::new(4);
    worker.close();
    let mut via: Via<u32> = Via::new(&mut worker, 0);
    assert_eq!(via.worker(), 4);
    assert!(via.is_severed());
    assert_eq!(worker.pending(), 0);
    for _ in 0..100 {
        assert_eq!(via.poll(), None);
    }
}
