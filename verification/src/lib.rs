//! The decisions behind the Adele desktop client's widgets: ranking, grouping,
//! form assembly, validation, list reconciliation and display text, with no
//! toolkit in sight. Every function states what it returns and is proved to.

pub mod api;
pub mod chat_view;
pub mod connection_config_dialog;
pub mod context_menu;
pub mod conversation_side_pane;
pub mod figures;
pub mod general_tab;
pub mod input_bar;
pub mod json;
pub mod mcp_server_dialog;
pub mod mcp_servers_tab;
pub mod model_picker;
pub mod personality_dialog;
pub mod purposes_tab;
pub mod ranking;
pub mod select_models_dialog;
pub mod settings_dialog;
pub mod setup_dialog;
pub mod sidebar;
pub mod tasks_panel;
pub mod text;
pub mod tool_usage;
pub mod transcript;
pub mod voice_tab;
