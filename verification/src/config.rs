//! The already-parsed configuration the engine consumes: one entry per
//! backend, tagged by transport kind, with the transport-specific
//! parameters.  Reading and parsing the configuration file is the
//! surrounding program's business; the engine only walks these values.

use vstd::prelude::*;

use crate::capability::{Resource, Tool};

verus! {

/// Configuration of a backend reached over a child process speaking the
/// standard-input/output protocol.
#[derive(Debug)]
pub struct StdioConfig {
    /// Command that starts the backend executable.
    pub command: String,
    /// Arguments passed to the command.
    pub args: Vec<String>,
    /// Environment variables for the backend process.
    pub env: Vec<(String, String)>,
    /// Optional path of a file with further environment variables.
    pub env_file: Option<String>,
}

/// Configuration of a backend reached over the deprecated event-stream
/// protocol.
#[derive(Debug)]
pub struct SseConfig {
    /// URL of the backend.
    pub url: String,
    /// HTTP headers sent to the backend.
    pub headers: Vec<(String, String)>,
}

/// Configuration of a backend reached over streaming HTTP.
#[derive(Debug)]
pub struct StreamableHttpConfig {
    /// URL of the backend.
    pub url: String,
    /// HTTP headers sent to the backend.
    pub headers: Vec<(String, String)>,
    /// Timeout for requests, in seconds.
    pub timeout_seconds: u64,
}

/// The timeout, in seconds, that a streaming-HTTP backend gets when its
/// configuration names none.
pub fn default_timeout() -> (r: u64)
    ensures
        r == 30,
{
    30
}

/// Configuration of one backend: a closed union over the three transport
/// kinds, each variant owning only its transport-specific parameters.
#[derive(Debug)]
pub enum McpServerConfig {
    /// A child process speaking the standard-input/output protocol.
    Stdio(StdioConfig),
    /// The deprecated event-stream protocol.
    Sse(SseConfig),
    /// Streaming HTTP.
    Http(StreamableHttpConfig),
}

/// The identifier of one configured backend, unique by construction of
/// the configuration and used as the key everywhere.
#[derive(Debug, PartialEq, Eq, Hash)]
pub struct McpServerName(pub String);

impl DeepView for McpServerName {
    type V = Seq<char>;

    open spec fn deep_view(&self) -> Seq<char> {
        self.0@
    }
}

/// One backend of the pre-generated configuration: its transport
/// parameters together with the resources and tools recorded for it.
pub struct McpServer {
    /// How to reach the backend.
    pub config: McpServerConfig,
    /// The recorded resources of the backend.
    pub resources: Vec<Resource>,
    /// The recorded tools of the backend.
    pub tools: Vec<Tool>,
}

/// The whole parsed configuration: every configured backend under its
/// identifier.
pub struct ConnectorConfig {
    /// The configured backends.
    pub servers: Vec<(McpServerName, McpServer)>,
}

/// The plain backend list from which a configuration is generated: each
/// backend's identifier and transport parameters, before any
/// introspection.
pub struct Servers {
    /// The configured backends.
    pub servers: Vec<(McpServerName, McpServerConfig)>,
}

} // verus!
