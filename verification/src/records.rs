use vstd::prelude::*;
use crate::error::NodegetError;
use crate::permission::Limit;

verus! {

/// Descriptive data of one agent.
#[derive(Debug, Clone, PartialEq, Eq)]
pub struct Metadata {
    /// The agent's UUID, as a 128-bit number.
    pub agent_uuid: u128,
    pub agent_name: String,
    pub agent_tags: Vec<String>,
}

impl Metadata {
    /// The metadata reported for an agent: what is stored for it, or, when
    /// nothing is, its UUID with an empty name and no tags.
    pub fn stored_or_blank(agent_uuid: u128, stored: Option<Metadata>) -> (r: Metadata)
        ensures
            match stored {
                Some(m) => r == m,
                None => r.agent_uuid == agent_uuid && r.agent_name@.len() == 0 && r.agent_tags@.len() == 0,
            },
    {
        match stored {
            Some(m) => m,
            None => Metadata { agent_uuid, agent_name: String::new(), agent_tags: Vec::new() },
        }
    }
}

/// The parameters of a request to create a token.
#[derive(Debug, Clone, PartialEq, Eq)]
pub struct TokenCreationRequest {
    pub username: Option<String>,
    pub password: Option<String>,
    /// Start of the validity window, in milliseconds.
    pub timestamp_from: Option<i64>,
    /// End of the validity window, in milliseconds.
    pub timestamp_to: Option<i64>,
    pub version: Option<i32>,
    pub token_limit: Vec<Limit>,
}

/// The error body of a JSON-RPC answer: 101 parse error, 102 permission
/// denied, 103 database error, 104 agent unreachable, 105 not found in the
/// database, 106 UUID not found, 107 configuration not found, 999 see the
/// message.
#[derive(Debug, Clone, PartialEq, Eq)]
pub struct JsonError {
    pub error_id: i128,
    pub error_message: String,
}

/// The configuration file of the server.
#[derive(Debug, Clone, PartialEq, Eq)]
pub struct ServerConfig {
    pub log_level: String,
    pub server_uuid: String,
    pub database_url: String,
    pub ws_listener: String,
}

/// Types that are built from a user-supplied name after checking it.
pub trait NameValidator: Sized {
    /// Checks `name` and builds the value from it.
    fn validate(name: &str) -> Result<Self, NodegetError>;
}

} // verus!
