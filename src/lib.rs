//! Session management for interactive pseudo-terminals embedded in a desktop
//! application, together with the small decisions that configure the
//! application's backend service.
//!
//! The process, PTY and event-bus plumbing is performed by the host; every
//! decision it takes (which shell, which directory, which size, which session
//! is evicted, what each output read turns into) is made here.

pub mod backend;
pub mod config;
pub mod lines;
pub mod manager;
pub mod paths;
pub mod pump;
pub mod registry;
pub mod terminal;
pub mod text;
