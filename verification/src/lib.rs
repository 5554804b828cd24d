//! Long-running goals attached to conversation threads.
//!
//! A thread carries at most one goal. The library keeps the table of goals and
//! their state machine, the accounting of tokens and time spent on each, the
//! decisions about when a goal drives the next turn, and the shapes in which
//! goals are shown to models, users and remote clients.

pub mod accounting;
pub mod commands;
pub mod connection_registry;
pub mod cursor;
pub mod extension;
pub mod goal_cmd;
pub mod goal_file;
pub mod goal_meta;
pub mod goal_repl;
pub mod goal_runner;
pub mod goal_runtime;
pub mod handler;
pub mod json;
pub mod listing;
pub mod metrics;
pub mod migrate;
pub mod objective_file;
pub mod outside;
pub mod receipts;
pub mod runtime;
pub mod service;
pub mod steering;
pub mod store;
pub mod table;
pub mod text;
pub mod tool_accounting;
pub mod tools;
pub mod types;
