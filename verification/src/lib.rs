//! Core library of the taskstream OpenProject / GitHub client: configuration
//! and capability rules, proxy resolution, timelog arithmetic, duration
//! grammar, HAL normalization and the GitHub task/notification mapping.
//! Network, file and process I/O live with the callers; everything here is a
//! computation over plain values.

pub mod error;
pub mod text;
pub mod strmap;
pub mod config;
pub mod client;
pub mod entities;
pub mod github;
pub mod json;
pub mod datetime;
pub mod timelog;
pub mod commands;
pub mod backend;
pub mod import;
pub mod cache;
pub mod state;
pub mod work_packages;
pub mod resolve;
pub mod settings;
pub mod secrets;
pub mod update;
pub mod migrate;
pub mod auth;
pub mod normalize;
pub mod hal;
pub mod digest;
pub mod holidays;
pub mod tray;
pub mod server_cmd;
pub mod time_entries;
pub mod cli;
pub mod api_call;
pub mod output;
pub mod duration;

