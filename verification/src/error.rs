//! The error type shared by the library.
use vstd::prelude::*;

verus! {

/// Everything that can go wrong in the tunnel server. Variants that wrap a
/// failure of the database, the serializer or the operating system carry
/// that failure's message.
#[derive(Debug)]
pub enum Error {
    Database(String),
    AgentNotFound(String),
    TunnelNotFound(String),
    ServerNotFound(String),
    SubdomainTaken(String),
    BadRequest(String),
    Validation(String),
    InvalidApiKey,
    WebSocket(String),
    Serialization(String),
    Io(String),
    NotLeader,
    NoTcpPort,
    Timeout,
    Internal(String),
}

/// The result type of fallible library operations.
pub type Result<T> = core::result::Result<T, Error>;

/// Whether `e` is an internal error whose message is `msg`.
pub open spec fn is_internal(e: Error, msg: Seq<char>) -> bool {
    e matches Error::Internal(m) && m@ == msg
}

/// The text an error is shown as.
pub open spec fn error_text(e: Error) -> Seq<char> {
    match e {
        Error::Database(m) => "Database error: "@ + m@,
        Error::AgentNotFound(m) => "Agent not found: "@ + m@,
        Error::TunnelNotFound(m) => "Tunnel not found: "@ + m@,
        Error::ServerNotFound(m) => "Server not found: "@ + m@,
        Error::SubdomainTaken(m) => "Subdomain already taken: "@ + m@,
        Error::BadRequest(m) => "Bad request: "@ + m@,
        Error::Validation(m) => "Validation error: "@ + m@,
        Error::InvalidApiKey => "Invalid API key"@,
        Error::WebSocket(m) => "WebSocket error: "@ + m@,
        Error::Serialization(m) => "Serialization error: "@ + m@,
        Error::Io(m) => "IO error: "@ + m@,
        Error::NotLeader => "Not leader"@,
        Error::NoTcpPort => "No available TCP port"@,
        Error::Timeout => "Connection timeout"@,
        Error::Internal(m) => "Internal error: "@ + m@,
    }
}

fn prefixed(prefix: &str, m: &String) -> (r: String)
    ensures
        r@ == prefix@ + m@,
{
    let mut s = String::from_str(prefix);
    s.append(m.as_str());
    s
}

impl Error {
    /// The text this error is shown as: what it is, then the message it
    /// carries, if any.
    pub fn message(&self) -> (r: String)
        ensures
            r@ == error_text(*self),
    {
        match self {
            Error::Database(m) => prefixed("Database error: ", m),
            Error::AgentNotFound(m) => prefixed("Agent not found: ", m),
            Error::TunnelNotFound(m) => prefixed("Tunnel not found: ", m),
            Error::ServerNotFound(m) => prefixed("Server not found: ", m),
            Error::SubdomainTaken(m) => prefixed("Subdomain already taken: ", m),
            Error::BadRequest(m) => prefixed("Bad request: ", m),
            Error::Validation(m) => prefixed("Validation error: ", m),
            Error::InvalidApiKey => String::from_str("Invalid API key"),
            Error::WebSocket(m) => prefixed("WebSocket error: ", m),
            Error::Serialization(m) => prefixed("Serialization error: ", m),
            Error::Io(m) => prefixed("IO error: ", m),
            Error::NotLeader => String::from_str("Not leader"),
            Error::NoTcpPort => String::from_str("No available TCP port"),
            Error::Timeout => String::from_str("Connection timeout"),
            Error::Internal(m) => prefixed("Internal error: ", m),
        }
    }
}

/// An internal error with the message `msg`.
pub fn internal(msg: &str) -> (e: Error)
    ensures
        is_internal(e, msg@),
{
    Error::Internal(String::from_str(msg))
}

} // verus!
