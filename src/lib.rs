//! Fault diagnosis for a multi-core boot firmware: core identification,
//! exception capture decisions, panic report formatting, frame-pointer
//! stack walking, the shared lock-guarded output sink, and the per-core
//! lifecycle that ends in a permanent halt.
pub mod core_id;
pub mod format;
pub mod exception;
pub mod report;
pub mod backtrace;
pub mod sink;
pub mod lifecycle;
