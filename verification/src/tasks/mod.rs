//! The task system's bookkeeping: progress records, capabilities, errors,
//! and the decisions of the task runtime.

pub mod definition;
pub mod error;
pub mod progress;
pub mod lifecycle;
pub mod live;
pub mod keys;
pub mod automation;
