//! Decision logic, text processing and rendering of a Discord research-task agent.
pub mod error;
pub mod models;
pub mod text;
pub mod config;
pub mod codex;
pub mod task_processor;
pub mod local_input;
pub mod notion;
pub mod json;
pub mod order;
pub mod discord_bot;
pub mod db;
pub mod rss_server;
pub mod cli;
