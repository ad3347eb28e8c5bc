//! The agent side: how an agent names its tunnel, reaches the server, asks
//! to register, and reads the server's answer.
use vstd::prelude::*;
use crate::proto::Message;
use crate::ids::{fresh_id, is_uuid_text};
use crate::text::str_eq;

verus! {

/// The protocol an agent registers with.
pub open spec fn agent_protocol_text(is_tcp: bool) -> Seq<char> {
    if is_tcp {
        "tcp"@
    } else {
        "http"@
    }
}

/// The protocol an agent registers with: `tcp` for TCP tunnels, `http`
/// otherwise.
pub fn agent_protocol(is_tcp: bool) -> (r: String)
    ensures
        r@ == agent_protocol_text(is_tcp),
{
    if is_tcp {
        String::from_str("tcp")
    } else {
        String::from_str("http")
    }
}

/// The first eight characters of `s` (all of it when shorter).
pub open spec fn first_eight(s: Seq<char>) -> Seq<char> {
    if s.len() <= 8 {
        s
    } else {
        s.take(8)
    }
}

/// The subdomain an agent asks for when none is given: `jrok-` and the
/// first eight characters of a fresh identifier.
pub fn default_subdomain(fresh_id: &str) -> (r: String)
    ensures
        r@ == "jrok-"@ + first_eight(fresh_id@),
{
    let n = fresh_id.unicode_len();
    let end = if n <= 8 {
        n
    } else {
        8
    };
    let head = fresh_id.substring_char(0, end);
    let mut r = String::from_str("jrok-");
    r.append(head);
    assert(head@ =~= first_eight(fresh_id@));
    r
}

/// The subdomain an agent asks for: the one given, or `jrok-` and the
/// first eight characters of a fresh random identifier.
pub fn subdomain_or_default(subdomain: Option<String>) -> (r: String)
    ensures
        match subdomain {
            Some(s) => r == s,
            None => exists|id: Seq<char>| is_uuid_text(id) && r@ == "jrok-"@ + first_eight(id),
        },
{
    match subdomain {
        Some(s) => s,
        None => {
            let id = fresh_id();
            default_subdomain(id.as_str())
        },
    }
}

/// The address an agent connects to: the server's WebSocket URL with the
/// agent endpoint and the API key as a query parameter.
pub fn agent_url(server: &str, api_key: &str) -> (r: String)
    ensures
        r@ == server@ + "/ws/agent?api_key="@ + api_key@,
{
    let mut r = String::from_str(server);
    r.append("/ws/agent?api_key=");
    r.append(api_key);
    r
}

/// The registration an agent sends first.
pub fn register_message(subdomain: String, local_port: u16, local_host: String, protocol: String, api_key: String) -> (r: Message)
    ensures
        r == (Message::Register { subdomain, local_port, local_host, protocol, api_key }),
{
    Message::Register { subdomain, local_port, local_host, protocol, api_key }
}

/// What an agent reads of one text frame from the server: the frame's
/// `type` and the fields it looks at, each as a string when it is one
/// (`tcp_port` as the JSON text of whatever value it has).
#[derive(Debug, Clone)]
pub struct ServerReply {
    pub kind: Option<String>,
    pub subdomain: Option<String>,
    pub protocol: Option<String>,
    pub tcp_port: Option<String>,
    pub server: Option<String>,
    pub message: Option<String>,
}

/// Where a registration stands after a frame from the server.
#[derive(Debug)]
pub enum ConnectOutcome {
    /// Nothing decided yet: read the next frame.
    Waiting,
    /// The tunnel is up, at this public URL.
    Active(String),
    /// The registration failed, for this reason.
    Failed(String),
}

/// The text of an optional string, or `default` when there is none.
pub open spec fn text_or(s: Option<String>, default: Seq<char>) -> Seq<char> {
    match s {
        Some(t) => t@,
        None => default,
    }
}

/// What a registration outcome says, with its texts as character sequences.
pub enum OutcomeView {
    Waiting,
    Active(Seq<char>),
    Failed(Seq<char>),
}

/// What an outcome says.
pub open spec fn outcome_view(o: ConnectOutcome) -> OutcomeView {
    match o {
        ConnectOutcome::Waiting => OutcomeView::Waiting,
        ConnectOutcome::Active(u) => OutcomeView::Active(u@),
        ConnectOutcome::Failed(m) => OutcomeView::Failed(m@),
    }
}

/// What a frame tells an agent that asked for `subdomain`: a welcome gives
/// the tunnel's public URL (`tcp://tunnel.example.com:` and the port for a
/// TCP tunnel, `https://` and the subdomain under `tunnel.example.com`
/// otherwise, the welcome's own subdomain and protocol taking precedence);
/// a redirect or an error ends the attempt; anything else is skipped.
pub open spec fn spec_reply_outcome(reply: ServerReply, subdomain: Seq<char>) -> OutcomeView {
    let kind = text_or(reply.kind, ""@);
    if reply.kind is Some && kind == "welcome"@ {
        let sub = text_or(reply.subdomain, subdomain);
        let protocol = text_or(reply.protocol, "http"@);
        if protocol == "tcp"@ {
            OutcomeView::Active("tcp://tunnel.example.com:"@ + text_or(reply.tcp_port, "0"@))
        } else {
            OutcomeView::Active("https://"@ + sub + ".tunnel.example.com"@)
        }
    } else if reply.kind is Some && kind == "redirect"@ {
        OutcomeView::Failed("Redirect to: "@ + text_or(reply.server, ""@))
    } else if reply.kind is Some && kind == "error"@ {
        OutcomeView::Failed(text_or(reply.message, "Unknown error"@))
    } else {
        OutcomeView::Waiting
    }
}

fn text_or_else(s: &Option<String>, default: &str) -> (r: String)
    ensures
        r@ == text_or(*s, default@),
{
    match s {
        Some(t) => t.clone(),
        None => String::from_str(default),
    }
}

fn is_kind(kind: &Option<String>, name: &str) -> (r: bool)
    ensures
        r == (kind is Some && text_or(*kind, ""@) == name@),
{
    match kind {
        Some(k) => str_eq(k.as_str(), name),
        None => false,
    }
}

/// What a frame from the server tells an agent that asked for `subdomain`.
pub fn on_server_reply(reply: &ServerReply, subdomain: &str) -> (r: ConnectOutcome)
    ensures
        outcome_view(r) == spec_reply_outcome(*reply, subdomain@),
{
    if is_kind(&reply.kind, "welcome") {
        let sub = text_or_else(&reply.subdomain, subdomain);
        let protocol = text_or_else(&reply.protocol, "http");
        if str_eq(protocol.as_str(), "tcp") {
            let mut url = String::from_str("tcp://tunnel.example.com:");
            let port = text_or_else(&reply.tcp_port, "0");
            url.append(port.as_str());
            ConnectOutcome::Active(url)
        } else {
            let mut url = String::from_str("https://");
            url.append(sub.as_str());
            url.append(".tunnel.example.com");
            ConnectOutcome::Active(url)
        }
    } else if is_kind(&reply.kind, "redirect") {
        let mut m = String::from_str("Redirect to: ");
        let server = text_or_else(&reply.server, "");
        m.append(server.as_str());
        ConnectOutcome::Failed(m)
    } else if is_kind(&reply.kind, "error") {
        ConnectOutcome::Failed(text_or_else(&reply.message, "Unknown error"))
    } else {
        ConnectOutcome::Waiting
    }
}

} // verus!
