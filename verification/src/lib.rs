//! Core logic of the ClickUp terminal clients: data models, filtering,
//! redaction, mention resolution, navigation state and input handling.

pub mod text;
pub mod redact;
pub mod json;
pub mod models;
pub mod mentions;
pub mod filter_config;
pub mod filters;
pub mod filter_panel;
pub mod app;
pub mod input;
pub mod event;
pub mod custom_field;
pub mod markdown;
pub mod client;
pub mod rate_limiter;
pub mod pagination;
pub mod config;
pub mod logging;
pub mod auth;
pub mod theme;
pub mod output;
pub mod ui_text;
pub mod task_view;
pub mod detail_view;
pub mod cli_view;
pub mod log_view;
pub mod commands;
pub mod comment_text;
pub mod comment_input;
