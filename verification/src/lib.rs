//! Panel logic of the rusterm desktop client.

pub mod api_panel;
pub mod chat_panel;
pub mod clock;
pub mod close_confirmation_dialog;
pub mod command_status_badge;
pub mod connection_dialog;
pub mod curl;
pub mod dock;
pub mod feishu_qr_popup;
pub mod history_panel;
pub mod i18n;
pub mod icon;
pub mod json;
pub mod local_models;
pub mod master_password_dialog;
pub mod model;
pub mod number;
pub mod onekey_manager;
pub mod onekey_popup;
pub mod posix_path;
pub mod relay_panel;
pub mod remote_files_panel;
pub mod restore_session_dialog;
pub mod right_tool_panel;
pub mod search;
pub mod send_panel;
pub mod settings_dialog;
pub mod settings_search;
pub mod shadow_sandbox_dialog;
pub mod shell;
pub mod sort;
pub mod text;
