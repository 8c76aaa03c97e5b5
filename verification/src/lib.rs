//! Access control, tool-call checking and message handling for an AI assistant.
pub mod access;
pub mod accounts;
pub mod agent_loop;
pub mod auth;
pub mod chat;
pub mod error;
pub mod fspath;
pub mod headless;
pub mod json;
pub mod keyed;
pub mod mcp;
pub mod models;
pub mod permissions;
pub mod provider_formats;
pub mod provider_setup;
pub mod providers;
pub mod registry;
pub mod remote;
pub mod replies;
pub mod security;
pub mod settings;
pub mod streaming;
pub mod teams;
pub mod telegram;
pub mod text;
pub mod tool_gate;
pub mod tool_validator;
pub mod vision;
