//! Supervision of agent subprocesses.
//!
//! An agent is started in a working directory with a prompt and a set of
//! environment overrides. Once it runs, three requests can be made of it at
//! any time and in any order: stream its output lines to a sink, wait for
//! its exit, kill it. The requests share one process handle behind one
//! guard, and this library holds the rules by which they share it.
//!
//! The library starts no process and takes no lock. It decides: a host
//! acquires the guard, asks the child for the request's `Session`, and
//! then does what each `Action` says, reporting back with an `Event`, until
//! the session finishes. What the sessions do to the guard is stated and
//! proved over a model in `protocol`:
//! a request keeps the guard for one call on the handle and no longer, and
//! a streaming request gives it back before it reads its first line.

pub mod child;
pub mod environment;
pub mod error;
pub mod executor;
pub mod platform;
pub mod protocol;
pub mod session;
