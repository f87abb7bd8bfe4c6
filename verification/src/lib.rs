//! Verified core logic of the Codex++ launcher: model-suffix cleanup,
//! SQLite path selection, plugin-marketplace configuration, user scripts and
//! the recommended-content list.

pub mod ads;
pub mod codex_sqlite;
pub mod http_client;
pub mod json_model;
pub mod launcher;
pub mod marketplace_config;
pub mod marketplace_laws;
pub mod model_suffix;
pub mod paths;
pub mod plugin_marketplace;
pub mod sort_order;
pub mod text;
pub mod toml_model;
pub mod user_scripts;
pub mod zip_archive;
