//! The records the cluster keeps in its shared database, how they are read
//! back from rows, and how API keys are hashed for storage.
use vstd::prelude::*;
use vstd::std_specs::convert::FromSpecImpl;
use vstd::string::StringSliceAdditionalSpecFns;
use crate::codec::{base64_encode, hmac_sha256, spec_base64_encode, spec_hmac_sha256};

verus! {

/// An API key as stored: its HMAC hash and the first characters of the key.
#[derive(Debug, Clone)]
pub struct ApiKey {
    pub id: String,
    pub key_hash: String,
    pub key_prefix: String,
    pub name: Option<String>,
    pub created_at: i64,
}

/// A server of the cluster.
#[derive(Debug, Clone)]
pub struct Server {
    pub id: String,
    pub http_host: String,
    pub tcp_host: String,
    pub started_at: i64,
    pub last_heartbeat: i64,
    pub is_healthy: bool,
}

/// Who leads the cluster, since which term, and when the leader last
/// renewed its lease.
#[derive(Debug, Clone)]
pub struct ClusterState {
    pub leader_id: Option<String>,
    pub leader_term: i64,
    pub last_heartbeat: i64,
}

/// A tunnel: a subdomain served over HTTP, or over TCP on a port.
#[derive(Debug, Clone)]
pub struct Tunnel {
    pub id: String,
    pub subdomain: String,
    pub protocol: Protocol,
    pub tcp_port: Option<u16>,
    pub api_key_id: Option<String>,
    pub created_at: i64,
    pub updated_at: i64,
    pub active: bool,
}

/// An agent connected to some server of the cluster.
#[derive(Debug, Clone)]
pub struct Agent {
    pub id: String,
    pub subdomain: String,
    pub server_id: String,
    pub tunnel_id: Option<String>,
    pub local_port: u16,
    pub local_host: String,
    pub protocol: Protocol,
    pub connection_token: String,
    pub connected_at: i64,
    pub last_heartbeat: i64,
    pub active: bool,
}

/// The protocol a tunnel carries.
#[derive(Debug, Clone, Copy, PartialEq, Eq, Structural)]
pub enum Protocol {
    Http,
    Tcp,
}

/// A TCP port held by a tunnel on a server.
#[derive(Debug, Clone)]
pub struct TcpPort {
    pub port: u16,
    pub tunnel_id: String,
    pub server_id: String,
}

/// Whether `s` is `tcp` in any mix of upper and lower case.
pub open spec fn is_tcp_text(s: Seq<char>) -> bool {
    &&& s.len() == 3
    &&& (s[0] == 't' || s[0] == 'T')
    &&& (s[1] == 'c' || s[1] == 'C')
    &&& (s[2] == 'p' || s[2] == 'P')
}

/// The protocol named by `s`: TCP for `tcp` in any case, HTTP otherwise.
pub open spec fn protocol_of(s: Seq<char>) -> Protocol {
    if is_tcp_text(s) {
        Protocol::Tcp
    } else {
        Protocol::Http
    }
}

/// The lowercase name of a protocol.
pub open spec fn protocol_text(p: Protocol) -> Seq<char> {
    match p {
        Protocol::Http => "http"@,
        Protocol::Tcp => "tcp"@,
    }
}

impl Protocol {
    /// The lowercase name: `http` or `tcp`.
    pub fn to_text(&self) -> (r: String)
        ensures
            r@ == protocol_text(*self),
    {
        match self {
            Protocol::Http => String::from_str("http"),
            Protocol::Tcp => String::from_str("tcp"),
        }
    }
}

impl Default for Protocol {
    fn default() -> (r: Self)
        ensures
            r == Protocol::Http,
    {
        Protocol::Http
    }
}

impl<'a> From<&'a str> for Protocol {
    fn from(s: &'a str) -> (r: Self) {
        if s.unicode_len() == 3 {
            let a = s.get_char(0);
            let b = s.get_char(1);
            let c = s.get_char(2);
            if (a == 't' || a == 'T') && (b == 'c' || b == 'C') && (c == 'p' || c == 'P') {
                return Protocol::Tcp;
            }
        }
        Protocol::Http
    }
}

impl<'a> FromSpecImpl<&'a str> for Protocol {
    open spec fn obeys_from_spec() -> bool {
        true
    }

    open spec fn from_spec(s: &'a str) -> Self {
        protocol_of(s@)
    }
}

/// Reading a protocol back from its name gives the same protocol.
pub proof fn lemma_protocol_text_roundtrip(p: Protocol)
    ensures
        protocol_of(protocol_text(p)) == p,
{
    reveal_strlit("http");
    reveal_strlit("tcp");
}


/// The secret that API keys are hashed under: the bytes of `jrok-api-key-v1`.
pub open spec fn api_key_secret() -> Seq<u8> {
    seq![106u8, 114u8, 111u8, 107u8, 45u8, 97u8, 112u8, 105u8, 45u8, 107u8, 101u8, 121u8, 45u8, 118u8, 49u8]
}

/// The stored form of an API key: the Base64 text of its HMAC-SHA256 tag
/// under the key secret.
pub open spec fn spec_hash_api_key(key: &str) -> Seq<char> {
    spec_base64_encode(spec_hmac_sha256(api_key_secret(), key.spec_bytes()))
}

/// The stored form of an API key.
pub fn hash_api_key(key: &str) -> (r: String)
    ensures
        r@ == spec_hash_api_key(key),
        r@.len() == 44,
{
    let secret: [u8; 15] = [106u8, 114u8, 111u8, 107u8, 45u8, 97u8, 112u8, 105u8, 45u8, 107u8, 101u8, 121u8, 45u8, 118u8, 49u8];
    assert(secret@ =~= api_key_secret());
    let tag = hmac_sha256(&secret, key.as_bytes());
    base64_encode(tag.as_slice())
}

/// The first eight characters of `key` (all of it when shorter).
pub open spec fn spec_key_prefix(key: Seq<char>) -> Seq<char> {
    if key.len() <= 8 {
        key
    } else {
        key.take(8)
    }
}

/// The first eight characters of `key`, shown to tell keys apart.
pub fn key_prefix(key: &str) -> (r: String)
    ensures
        r@ == spec_key_prefix(key@),
{
    let n = key.unicode_len();
    let end = if n <= 8 { n } else { 8 };
    let p = key.substring_char(0, end);
    assert(p@ =~= spec_key_prefix(key@));
    String::from_str(p)
}

impl ApiKey {
    /// The record stored for the key `key` created at `now`.
    pub fn for_key(id: &str, key: &str, name: Option<&str>, now: i64) -> (r: ApiKey)
        ensures
            r.id@ == id@,
            r.key_hash@ == spec_hash_api_key(key),
            r.key_prefix@ == spec_key_prefix(key@),
            match name {
                Some(n) => r.name matches Some(rn) && rn@ == n@,
                None => r.name is None,
            },
            r.created_at == now,
    {
        ApiKey {
            id: String::from_str(id),
            key_hash: hash_api_key(key),
            key_prefix: key_prefix(key),
            name: match name {
                Some(n) => Some(String::from_str(n)),
                None => None,
            },
            created_at: now,
        }
    }
}

impl Server {
    /// A server read from a row; it is healthy when the flag is 1.
    pub fn from_row(id: String, http_host: String, tcp_host: String, started_at: i64, last_heartbeat: i64, is_healthy: i64) -> (r: Server)
        ensures
            r.id == id,
            r.http_host == http_host,
            r.tcp_host == tcp_host,
            r.started_at == started_at,
            r.last_heartbeat == last_heartbeat,
            r.is_healthy == (is_healthy == 1),
    {
        Server { id, http_host, tcp_host, started_at, last_heartbeat, is_healthy: is_healthy == 1 }
    }
}

impl ClusterState {
    /// The cluster state read from a row; an empty leader id means that
    /// there is no leader.
    pub fn from_row(leader_id: Option<String>, leader_term: i64, last_heartbeat: i64) -> (r: ClusterState)
        ensures
            match leader_id {
                Some(s) => if s@.len() == 0 {
                    r.leader_id is None
                } else {
                    r.leader_id == Some(s)
                },
                None => r.leader_id is None,
            },
            r.leader_term == leader_term,
            r.last_heartbeat == last_heartbeat,
    {
        let leader_id = match leader_id {
            Some(s) => if s.unicode_len() == 0 {
                None
            } else {
                Some(s)
            },
            None => None,
        };
        ClusterState { leader_id, leader_term, last_heartbeat }
    }
}

impl Agent {
    /// An agent read from a row: the port column is cut to 16 bits, the
    /// protocol is read from its name, and the agent is active unless the
    /// flag is 0.
    pub fn from_row(
        id: String,
        subdomain: String,
        server_id: String,
        tunnel_id: String,
        local_port: i64,
        local_host: String,
        protocol: &str,
        connection_token: String,
        connected_at: i64,
        last_heartbeat: i64,
        active: i64,
    ) -> (r: Agent)
        ensures
            r.id == id,
            r.subdomain == subdomain,
            r.server_id == server_id,
            r.tunnel_id == Some(tunnel_id),
            r.local_port == local_port as u16,
            r.local_host == local_host,
            r.protocol == protocol_of(protocol@),
            r.connection_token == connection_token,
            r.connected_at == connected_at,
            r.last_heartbeat == last_heartbeat,
            r.active == (active != 0),
    {
        Agent {
            id,
            subdomain,
            server_id,
            tunnel_id: Some(tunnel_id),
            local_port: #[verifier::truncate] (local_port as u16),
            local_host,
            protocol: Protocol::from(protocol),
            connection_token,
            connected_at,
            last_heartbeat,
            active: active != 0,
        }
    }
}

impl Tunnel {
    /// A tunnel read from a row: the port column, when set, is cut to 16
    /// bits, and the tunnel is active unless the flag is 0.
    pub fn from_row(
        id: String,
        subdomain: String,
        protocol: &str,
        tcp_port: Option<i64>,
        api_key_id: Option<String>,
        created_at: i64,
        updated_at: i64,
        active: i64,
    ) -> (r: Tunnel)
        ensures
            r.id == id,
            r.subdomain == subdomain,
            r.protocol == protocol_of(protocol@),
            r.tcp_port == (match tcp_port {
                Some(p) => Some(p as u16),
                None => None,
            }),
            r.api_key_id == api_key_id,
            r.created_at == created_at,
            r.updated_at == updated_at,
            r.active == (active != 0),
    {
        Tunnel {
            id,
            subdomain,
            protocol: Protocol::from(protocol),
            tcp_port: match tcp_port {
                Some(p) => Some(#[verifier::truncate] (p as u16)),
                None => None,
            },
            api_key_id,
            created_at,
            updated_at,
            active: active != 0,
        }
    }
}

/// A key's prefix is at most eight characters long and starts the key.
pub proof fn lemma_key_prefix_starts_key(key: Seq<char>)
    ensures
        spec_key_prefix(key).len() <= 8,
        spec_key_prefix(key) == key.take(spec_key_prefix(key).len() as int),
{
    assert(key.take(key.len() as int) =~= key);
}

} // verus!
