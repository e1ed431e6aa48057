//! Pulse — system behavior analysis: the verified core of the `pulse`
//! CLI and the `pulse-daemon` collector.
pub mod alerts;
pub mod analytics;
pub mod cli;
pub mod cli_core;
pub mod collector;
pub mod config;
pub mod daemon;
pub mod logging;
pub mod storage;
pub mod text;
pub mod ui;
