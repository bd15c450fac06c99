//! Kaku: the workspace sidebar, the status of agents, workspace commands and the remote bridge.
pub mod agent_status;
pub mod codex_app_server;
pub mod codex_app_server_laws;
pub mod entries;
pub mod ids;
pub mod json;
pub mod numbers;
pub mod order;
pub mod path_laws;
pub mod paths;
pub mod remote;
pub mod remote_laws;
pub mod shortcut_help;
pub mod sidebar;
pub mod state_paths;
pub mod terminal_text;
pub mod text;
pub mod text_laws;
pub mod workspace;
pub mod workspace_laws;
