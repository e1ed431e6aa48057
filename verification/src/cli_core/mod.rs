//! The first-generation analysis helpers: memory formatting, anomaly
//! explanations, the bounded per-process history and plain text output.
pub mod explain;
pub mod format;
pub mod history;
pub mod ui;
