//! Keyed task routing: work that shares a routing key runs strictly in the
//! order it was submitted, on one worker of a fixed pool, while work under
//! other keys is free to run on other workers.
//!
//! The library decides and keeps the books; it runs nothing by itself. A
//! driver submits units of work, asks each worker for the job to run next,
//! runs it, and reports its end.

pub mod combinator;
pub mod dispatch;
pub mod global;
pub mod order;
pub mod prelude;
pub mod router;
pub mod utils;
pub mod via;
pub mod worker;

pub use crate::router::current;
