//! The names that most callers need.

pub use crate::combinator::RunVia;
pub use crate::global::Global;
pub use crate::router::{Router, Via};
