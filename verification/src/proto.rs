//! The messages exchanged between the server and its agents.
use vstd::prelude::*;
use std::collections::HashMap;

verus! {

/// A message between the server and an agent, over the agent's WebSocket.
#[derive(Debug, Clone)]
pub enum Message {
    /// An agent asks to serve `subdomain` from `local_host:local_port`.
    Register { subdomain: String, local_port: u16, local_host: String, protocol: String, api_key: String },
    /// The server accepted a registration.
    Welcome { agent_id: String, subdomain: String, protocol: String },
    /// The server refused something.
    Error { message: String },
    /// The server forwards an HTTP request to the agent.
    HttpRequest {
        request_id: String,
        method: String,
        path: String,
        headers: HashMap<String, String>,
        body: Option<Vec<u8>>,
    },
    /// The agent answers a forwarded request.
    HttpResponse { request_id: String, status: u16, headers: HashMap<String, String>, body: Option<Vec<u8>> },
    /// The agent is alive.
    Heartbeat,
    /// The server saw the agent's heartbeat.
    HeartbeatAck,
    /// The server asks the agent to listen for a direct TCP connection.
    TcpListenRequest { session_id: String },
    /// The agent listens at its public `endpoint` (`ip:port`).
    TcpListenResponse { session_id: String, endpoint: String },
    /// A direct connection was made.
    ConnectionEstablished { session_id: String },
    /// A TCP client connected to a proxied port.
    TcpConnect { connection_id: String, client_ip: String },
    /// Bytes of a proxied TCP connection, in Base64.
    TcpData { connection_id: String, data: String },
    /// A proxied TCP connection closed.
    TcpDisconnect { connection_id: String },
}

} // verus!
