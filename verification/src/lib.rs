//! Tools and terminal interface logic of a report-writing agent.

pub mod agent;
pub mod app;
pub mod app_command;
pub mod app_event;
pub mod app_input;
pub mod app_state;
pub mod apply_patch;
pub mod bottom_pane;
pub mod chatwidget;
pub mod clipboard_copy;
pub mod clock;
pub mod codex_shell;
pub mod config_update;
pub mod configuration_flow;
pub mod desk;
pub mod diff_render;
pub mod editor;
pub mod environment_setup;
pub mod exec_tool;
pub mod file_tools;
pub mod frame_rate_limiter;
pub mod frame_requester;
pub mod geometry;
pub mod json;
pub mod key_events;
pub mod keys;
pub mod list_dir;
pub mod manifest;
pub mod mentions;
pub mod order;
pub mod replay;
pub mod request_user_input;
pub mod slash_command;
pub mod style;
pub mod text;
pub mod transcript;
pub mod user_input;
pub mod width;
