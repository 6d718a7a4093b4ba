//! Verified core of a Windows system-drive cleanup and migration tool.
pub mod commands;
pub mod json;
pub mod native;
pub mod storage;
pub mod text;
