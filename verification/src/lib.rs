//! Focus-session tracking and intention-alignment evaluation.
//!
//! The library watches a stream of focused-application snapshots, turns it
//! into persisted, non-overlapping activity sessions, and scores how well the
//! current activity matches a user-stated intention by building prompts for a
//! local text-generation service and tolerantly parsing the structured
//! evaluation out of its free-form reply.
//!
//! Platform focus lookup, the relational store, and the HTTP transport are
//! external collaborators: callers perform that I/O and hand the library
//! plain values.

pub mod json;
pub mod monitor;
pub mod ollama;
pub mod storage;

pub use monitor::{AppInfo, MonitorConfig, MonitorError, MonitorState};
pub use ollama::{AlignmentEvaluation, OllamaClient, OllamaError};
pub use storage::{ActivityLogger, ActivitySession, StorageError};
