//! Decision core of a session-log change notifier.
//!
//! A host watches a directory tree, debounces the raw file-system events and
//! hands each coalesced batch to this library, which decides whether the
//! batch concerns a session log (a file whose name ends in `.jsonl`) and
//! therefore whether the host is to be told that the sessions changed.
//!
//! Paths are byte strings with `/` as the separator. Every function here is
//! total and free of side effects; watching, timing and delivery belong to
//! the caller.

pub mod event;
pub mod path;
pub mod startup;
pub mod worker;
