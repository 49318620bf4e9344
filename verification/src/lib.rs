//! Core of a desktop backend that drives an external video-rendering worker.
//!
//! The library holds the logic that is worth stating precisely: the progress
//! parser that turns free-form worker output into numeric progress values,
//! the builder that turns a validated job request into the worker's argument
//! vector, the orchestrator state machine that owns one worker lifecycle at a
//! time, the bounded newest-first job-record store, and the style listing
//! rules. The surrounding shell performs the actual process and file I/O and
//! hands plain values in and out.

pub mod command;
pub mod file_check;
pub mod orchestrator;
pub mod progress;
pub mod store;
pub mod styles;
pub mod text;

pub use text::normalize_path_for_cli;
