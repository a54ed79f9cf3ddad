//! Supervisor proxy for Model Context Protocol servers.

pub mod admin_cli;
pub mod backend_manager;
pub mod broker_manager;
pub mod cache;
pub mod cli;
pub mod daemon_manager;
pub mod error_codes;
pub mod event_plane;
pub mod fingerprint;
pub mod json;
pub mod lifetime;
pub mod logging;
pub mod mcp_interface;
pub mod mcp_manager;
pub mod router;
pub mod runtime_manager;
pub mod table;
pub mod text;
pub mod timeouts;
pub mod tools;
pub mod transport;
