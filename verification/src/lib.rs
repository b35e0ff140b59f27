pub mod app_state;
pub mod bridge_types;
pub mod cache;
pub mod clock;
pub mod commands;
pub mod json;
pub mod keys;
pub mod overlays;
pub mod paths;
pub mod render_text;
pub mod security;
pub mod skills;
pub mod text;
pub mod vision;
pub mod skill_bundles;
pub mod secrets;
pub mod bridge_status;
pub mod plugin_fs;
pub mod bridge_router;
pub mod markdown;
pub mod input;
pub mod wrap;
pub mod chat_view;
pub mod agent_loop;
pub mod tools;
pub mod models;
pub mod bridge_adapters;
pub mod engine;
pub mod model_choice;
pub mod chat_loop;
pub mod doctor;
pub mod checkpoint;
pub mod download;
pub mod engine_ops;
pub mod command_text;
pub mod user_skills;
pub mod marketplace_sources;
pub mod message_layout;
pub mod cli;
pub mod analyze_log;
