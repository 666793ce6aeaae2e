//! Snapshots written out and read back.
pub mod event_lines;
pub mod import;
pub mod laws;
pub mod lines;
pub mod rebuild;
pub mod tables;
