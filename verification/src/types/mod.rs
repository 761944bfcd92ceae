//! Values shared by the access rules.
pub mod common;
pub mod time;

pub use common::{AttributeValue, Decision, Effect};
pub use time::{DateException, ExceptionType, TimeWindow, Weekday};
