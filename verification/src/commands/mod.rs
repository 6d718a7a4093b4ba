//! The operations the user interface invokes, without their I/O.
pub mod tasks;
pub mod failures;
pub mod logs;
pub mod scan;
pub mod system;
pub mod migration;
pub mod devspace;
pub mod cleanup;
