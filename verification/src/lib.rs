//! Verified core of mprisence: player selection, health tracking, configuration
//! resolution and the text formats the daemon produces.

pub mod health;
pub mod text;
pub mod player;
pub mod bridge;
pub mod autostart;
pub mod config;
pub mod patterns;
pub mod resolve;
pub mod urls;
pub mod activity;
pub mod cover;
pub mod metadata;
pub mod sorting;
pub mod grouping;
pub mod events;
pub mod config_lint;
pub mod preview;
pub mod report;
pub mod context;
pub mod watch;
pub mod settings_api;
pub mod discord;
pub mod bridge_setup;
pub mod tracking;
pub mod file_settings;
