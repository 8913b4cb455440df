//! Mirrors selected files between two directory trees according to glob
//! mapping rules, and runs that mirroring - plus shell/git/AI steps - as
//! schedulable, auditable automation tasks.
//!
//! The crate holds the decision logic: pattern-to-path resolution, change
//! classification, file synchronization over an in-memory tree model,
//! ordered multi-step task execution, duplicate-run suppression, and
//! cron-based due-task detection.  Filesystem walks, subprocesses, HTTP and
//! the persistent store stay with the caller, which hands plain values in
//! and takes plain values back.

pub mod ai;
pub mod deps;
pub mod diff;
pub mod mapping;
pub mod ide;
pub mod orchestrator;
pub mod repo_scan;
pub mod report;
pub mod repo_tree;
pub mod route_tree;
pub mod scheduler;
pub mod status;
pub mod strutil;
pub mod sync;
pub mod tasks;
pub mod sync_laws;
pub mod tree;
