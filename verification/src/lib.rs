//! Core logic of the Codex reset watch service: configuration rules,
//! Beijing-time scheduling, the manual-run gate, the public error envelope
//! and the storage decisions, each with a machine-checked contract.

pub mod config;
pub mod db;
pub mod error;
pub mod text;
pub mod time;
pub mod scheduler;
