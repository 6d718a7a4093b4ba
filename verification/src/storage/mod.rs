//! The operation log.
pub mod logs;
