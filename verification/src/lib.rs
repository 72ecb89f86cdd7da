//! Routing of files that arrive in watched directories.
//!
//! A rule binds a pattern on file names to a directory and to a task. The
//! library holds every decision on the way from a raw file event to the
//! file operations of a task: matching a name, coalescing repeated events on
//! one path, choosing the operations of a copy, a move or an unpack attempt.
//! Waiting, watching and touching the disk are left to the caller, who feeds
//! the outcomes back in.

pub mod config;
pub mod dispatcher;
pub mod engine;
pub mod executor;
pub mod fs_model;
pub mod paths;
pub mod pattern;
pub mod watcher;
