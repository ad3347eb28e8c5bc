//! TCP tunnels: the ports listened on for agents, the proxied connections,
//! and the answers to tunnel requests.
use vstd::prelude::*;
use crate::agent::AgentState;
use crate::codec::{base64_encode, base64_len, spec_base64_decode, spec_base64_encode};
use crate::db::Protocol;
use crate::error::Error;
use crate::ids::{fresh_id, is_uuid_text};
use crate::proto::Message;
use crate::table::Table;
use crate::text::{decimal, push_decimal};

verus! {

/// The TCP ports listened on, by subdomain.
pub struct TcpForwarder {
    active_listeners: Table<u16>,
}

impl TcpForwarder {
    /// The port listened on for each subdomain.
    pub closed spec fn listeners(&self) -> Map<Seq<char>, u16> {
        self.active_listeners@
    }

    /// A forwarder that listens nowhere.
    pub fn new() -> (r: Self)
        ensures
            r.listeners() == Map::<Seq<char>, u16>::empty(),
    {
        Self { active_listeners: Table::new() }
    }

    /// Records that `subdomain` is listened for on `port`.
    pub fn start_listener(&mut self, subdomain: String, port: u16) -> (r: Result<(), Error>)
        ensures
            r is Ok,
            final(self).listeners() == old(self).listeners().insert(subdomain@, port),
    {
        self.active_listeners.insert(subdomain, port);
        Ok(())
    }

    /// Records that `subdomain` is no longer listened for.
    pub fn stop_listener(&mut self, subdomain: &str) -> (r: Result<(), Error>)
        ensures
            r is Ok,
            final(self).listeners() == old(self).listeners().remove(subdomain@),
    {
        let _ = self.active_listeners.remove(subdomain);
        Ok(())
    }

    /// The port listened on for `subdomain`, if any.
    pub fn listener_port(&self, subdomain: &str) -> (r: Option<u16>)
        ensures
            r == self.listeners().get(subdomain@),
    {
        match self.active_listeners.get(subdomain) {
            Some(p) => Some(*p),
            None => None,
        }
    }
}

/// A proxied TCP connection.
#[derive(Debug, Clone)]
pub struct TcpConnection {
    pub connection_id: String,
    pub agent_id: String,
    pub subdomain: String,
    pub client_addr: String,
}

/// The proxied TCP connections, by connection id.
pub struct TcpConnectionManager {
    connections: Table<TcpConnection>,
}

impl TcpConnectionManager {
    /// The open connections, by connection id.
    pub closed spec fn open_connections(&self) -> Map<Seq<char>, TcpConnection> {
        self.connections@
    }

    /// A manager with no connections.
    pub fn new() -> (r: Self)
        ensures
            r.open_connections() == Map::<Seq<char>, TcpConnection>::empty(),
    {
        Self { connections: Table::new() }
    }

    /// Records a new connection from `client_addr` proxied to `agent_id`.
    pub fn create_connection(&mut self, connection_id: String, agent_id: String, subdomain: String, client_addr: String)
        ensures
            final(self).open_connections() == old(self).open_connections().insert(
                connection_id@,
                TcpConnection { connection_id, agent_id, subdomain, client_addr },
            ),
    {
        let key = connection_id.clone();
        let connection = TcpConnection { connection_id, agent_id, subdomain, client_addr };
        self.connections.insert(key, connection);
    }

    /// Forgets the connection `connection_id`.
    pub fn remove_connection(&mut self, connection_id: &str)
        ensures
            final(self).open_connections() == old(self).open_connections().remove(connection_id@),
    {
        let _ = self.connections.remove(connection_id);
    }

    /// The agent to send `data` of connection `connection_id` to, with the
    /// message that carries it (the bytes in Base64); nothing for an
    /// unknown connection.
    pub fn forward_data(&self, connection_id: &str, data: &[u8]) -> (r: Option<(String, Message)>)
        requires
            base64_len(data@.len()) <= usize::MAX,
        ensures
            match self.open_connections().get(connection_id@) {
                Some(c) => r matches Some((agent, Message::TcpData { connection_id: cid, data: text })) && agent
                    == c.agent_id && cid@ == connection_id@ && text@ == spec_base64_encode(data@)
                    && spec_base64_decode(text@) == Some(data@),
                None => r is None,
            },
    {
        match self.connections.get(connection_id) {
            Some(conn) => {
                let encoded = base64_encode(data);
                Some((conn.agent_id.clone(), Message::TcpData { connection_id: String::from_str(connection_id), data: encoded }))
            },
            None => None,
        }
    }
}

/// A fresh random id for a TCP client that connected from `client_ip`,
/// and the notice that tells the agent about it.
pub fn connect_notice(client_ip: String) -> (r: (String, Message))
    ensures
        is_uuid_text(r.0@),
        r.1 == (Message::TcpConnect { connection_id: r.0, client_ip }),
{
    let connection_id = fresh_id();
    (connection_id.clone(), Message::TcpConnect { connection_id, client_ip })
}

/// The status and text answering a TCP tunnel request for `subdomain` on
/// `tcp_port`, given the agent of that subdomain connected here (with its
/// id), if any, and otherwise the server it is on, if any.
pub open spec fn spec_tcp_tunnel_reply(
    subdomain: Seq<char>,
    tcp_port: u16,
    local: Option<(String, AgentState)>,
    remote_server: Option<String>,
) -> (u16, Seq<char>) {
    match local {
        None => match remote_server {
            Some(s) => (400, "Agent '"@ + subdomain + "' is on remote server '"@ + s@ + "'. Connect directly to that server."@),
            None => (404, "Tunnel '"@ + subdomain + "' not found. No agent registered."@),
        },
        Some((agent_id, agent)) => if agent.protocol != Protocol::Tcp {
            (400, "Agent is not configured for TCP tunneling. Use protocol='tcp' in registration."@)
        } else {
            (
                200,
                "TCP tunnel ready for '"@ + subdomain + "' on port "@ + decimal(tcp_port as nat) + ". Agent: "@
                    + agent_id@,
            )
        },
    }
}

/// The status and text answering a TCP tunnel request.
pub fn tcp_tunnel_reply(subdomain: &str, tcp_port: u16, local: &Option<(String, AgentState)>, remote_server: &Option<String>) -> (r: (u16, String))
    ensures
        r.0 == spec_tcp_tunnel_reply(subdomain@, tcp_port, *local, *remote_server).0,
        r.1@ == spec_tcp_tunnel_reply(subdomain@, tcp_port, *local, *remote_server).1,
{
    match local {
        None => match remote_server {
            Some(s) => {
                let mut m = String::from_str("Agent '");
                m.append(subdomain);
                m.append("' is on remote server '");
                m.append(s.as_str());
                m.append("'. Connect directly to that server.");
                (400, m)
            },
            None => {
                let mut m = String::from_str("Tunnel '");
                m.append(subdomain);
                m.append("' not found. No agent registered.");
                (404, m)
            },
        },
        Some((agent_id, agent)) => {
            if agent.protocol != Protocol::Tcp {
                (400, String::from_str("Agent is not configured for TCP tunneling. Use protocol='tcp' in registration."))
            } else {
                let mut m = String::from_str("TCP tunnel ready for '");
                m.append(subdomain);
                m.append("' on port ");
                push_decimal(&mut m, tcp_port as u64);
                m.append(". Agent: ");
                m.append(agent_id.as_str());
                (200, m)
            }
        },
    }
}

/// How many times a tunnel asks the database for a port in
/// `[start_port, end_port)`: once for each port of the range.
pub open spec fn allocation_attempts(start_port: u16, end_port: u16) -> int {
    if start_port < end_port {
        end_port - start_port
    } else {
        0
    }
}

/// What one step of claiming a TCP port for a tunnel asks for.
#[derive(Debug)]
pub enum AllocationStep {
    /// Ask the database for a free port of the range once more and report
    /// the answer.
    Ask,
    /// Claiming is over: the port claimed, or the error that none is free.
    Done(Result<u16, Error>),
}

/// One step of claiming a port of `[start_port, end_port)` for a tunnel.
/// `answers[j]` is the port the `j`-th request to the database claimed
/// (`None` when it claimed none or failed). The first port claimed is the
/// answer; while none is, the database is asked again, once for each port
/// of the range; then no port is available.
pub fn allocation_step(start_port: u16, end_port: u16, answers: &Vec<Option<u16>>) -> (r: AllocationStep)
    ensures
        forall|j: int|
            0 <= j < answers@.len() && j < allocation_attempts(start_port, end_port) && #[trigger] answers@[j] is Some
                && (forall|i: int| 0 <= i < j ==> answers@[i] is None) ==> r == AllocationStep::Done(
                Ok::<u16, Error>(answers@[j]->Some_0),
            ),
        (forall|i: int| 0 <= i < answers@.len() && i < allocation_attempts(start_port, end_port) ==> answers@[i] is None)
            ==> if answers@.len() < allocation_attempts(start_port, end_port) {
            r is Ask
        } else {
            r matches AllocationStep::Done(Err(Error::NoTcpPort))
        },
{
    let attempts: usize = if start_port < end_port {
        (end_port - start_port) as usize
    } else {
        0
    };
    let mut j: usize = 0;
    while j < answers.len() && j < attempts
        invariant
            j <= answers@.len(),
            j <= attempts,
            attempts == allocation_attempts(start_port, end_port),
            forall|i: int| 0 <= i < j ==> answers@[i] is None,
        decreases answers@.len() - j,
    {
        match answers[j] {
            Some(p) => {
                return AllocationStep::Done(Ok(p));
            },
            None => {},
        }
        j = j + 1;
    }
    if answers.len() < attempts {
        AllocationStep::Ask
    } else {
        AllocationStep::Done(Err(Error::NoTcpPort))
    }
}

/// The next port to try to claim in `[start_port, end_port)`: the start
/// port first, then the one after the last port tried.
pub open spec fn spec_next_port(start_port: u16, end_port: u16, last_tried: Option<u16>) -> Option<u16> {
    match last_tried {
        None => if start_port < end_port {
            Some(start_port)
        } else {
            None
        },
        Some(p) => if p + 1 < end_port {
            Some((p + 1) as u16)
        } else {
            None
        },
    }
}

/// The next port to try to claim in `[start_port, end_port)`.
pub fn next_port_candidate(start_port: u16, end_port: u16, last_tried: Option<u16>) -> (r: Option<u16>)
    ensures
        r == spec_next_port(start_port, end_port, last_tried),
{
    match last_tried {
        None => if start_port < end_port {
            Some(start_port)
        } else {
            None
        },
        Some(p) => if p < end_port && p + 1 < end_port {
            Some(p + 1)
        } else {
            None
        },
    }
}

/// Every candidate lies in the range, when the port tried last does.
pub proof fn lemma_candidates_in_range(start_port: u16, end_port: u16, last_tried: Option<u16>)
    requires
        last_tried matches Some(p) ==> start_port <= p,
    ensures
        spec_next_port(start_port, end_port, last_tried) matches Some(q) ==> start_port <= q < end_port,
{
}

} // verus!
