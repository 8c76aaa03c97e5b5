//! The errors that the assistant's operations report.
use vstd::prelude::*;
use crate::mcp::{McpError, mcp_error_text};
use crate::providers::{ProviderError, provider_error_text};
use crate::security::{SecurityError, security_error_text};
use crate::text::{owned, append_str};

verus! {

/// Why an operation of the assistant failed.
#[derive(Debug)]
pub enum VidaError {
    Provider(ProviderError),
    Security(SecurityError),
    Database(String),
    Mcp(McpError),
    SessionNotFound(String),
    ProviderNotFound(String),
    Config(String),
    Authentication(String),
}

/// The message that explains `e`.
pub open spec fn vida_error_text(e: VidaError) -> Seq<char> {
    match e {
        VidaError::Provider(p) => "Provider: "@ + provider_error_text(p),
        VidaError::Security(s) => "Security: "@ + security_error_text(s),
        VidaError::Database(m) => "Database: "@ + m@,
        VidaError::Mcp(m) => "MCP: "@ + mcp_error_text(m),
        VidaError::SessionNotFound(m) => "Session not found: "@ + m@,
        VidaError::ProviderNotFound(m) => "Provider not found: "@ + m@,
        VidaError::Config(m) => "Config: "@ + m@,
        VidaError::Authentication(m) => "Authentication: "@ + m@,
    }
}

impl VidaError {
    /// The message that explains the failure.
    pub fn message(&self) -> (r: String)
        ensures
            r@ == vida_error_text(*self),
    {
        let (mut r, inner) = match self {
            VidaError::Provider(p) => (owned("Provider: "), p.message()),
            VidaError::Security(s) => (owned("Security: "), s.message()),
            VidaError::Database(m) => (owned("Database: "), m.clone()),
            VidaError::Mcp(m) => (owned("MCP: "), m.message()),
            VidaError::SessionNotFound(m) => (owned("Session not found: "), m.clone()),
            VidaError::ProviderNotFound(m) => (owned("Provider not found: "), m.clone()),
            VidaError::Config(m) => (owned("Config: "), m.clone()),
            VidaError::Authentication(m) => (owned("Authentication: "), m.clone()),
        };
        append_str(&mut r, inner.as_str());
        r
    }
}

} // verus!
