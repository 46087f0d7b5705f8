//! Verified core of a clipboard history manager: the decisions and data
//! transformations behind capture, paste, screenshot sessions, settings,
//! history storage planning and peer synchronisation.

pub mod ai_vision;
pub mod app_filter;
pub mod actions;
pub mod capture;
pub mod clipboard_content;
pub mod commands;
pub mod data_management;
pub mod database;
pub mod device_identity;
pub mod events;
pub mod hashing;
pub mod history_sync;
pub mod ids;
pub mod image_id;
pub mod image_store;
pub mod imaging;
pub mod lan_files;
pub mod lan_sync;
pub mod models;
pub mod keyboard;
pub mod migration;
pub mod monitor;
pub mod paste;
pub mod paths;
pub mod recording;
pub mod session;
pub mod settings;
pub mod settings_commands;
pub mod settings_storage;
pub mod store;
pub mod text;
pub mod webdav_types;
pub mod workflow;
