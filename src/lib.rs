//! Supervision of a backend process launched beside a desktop window.
//!
//! The library holds the decisions: where the child's handle lives, when a
//! termination request is owed, and what the output listener logs and when it
//! stops. Launching the process, reading its pipes, killing it and printing
//! are left to the host application, which hands the outcomes in as values.

mod greeting;
mod lifecycle;
mod listener;
mod supervisor;

pub use greeting::{greet, greeting_text};
pub use lifecycle::{
    launched, lemma_at_most_one_request, lemma_exit_keeps_handle, lemma_failed_spawn_changes_nothing,
    lemma_racing_shutdowns, lemma_shutdown_when_empty, outputs, requests, slot_seq, step, Lifecycle,
};
pub use listener::{entries_of, entry_of, listen, log_of, Listener, LogEntry, OutputEvent};
pub use supervisor::{after_spawn, starts_listener, SidecarState, SpawnError};
