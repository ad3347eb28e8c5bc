//! What the server does with each message an agent sends over its
//! WebSocket.
use vstd::prelude::*;
use std::collections::HashMap;
use crate::codec::{base64_encode, base64_len, spec_base64_encode};
use crate::proto::Message;
use crate::agent::response_body;

verus! {

/// What to do with a message from an agent.
#[derive(Debug)]
pub enum AgentAction {
    /// Check the API key, then register the agent.
    Register { subdomain: String, local_port: u16, local_host: String, protocol: String, api_key: String },
    /// Record a heartbeat of the registered agent.
    Heartbeat(String),
    /// Hand the agent's answer (its body in Base64, which the registry decodes
    /// back to the same bytes) to the waiting request.
    DeliverResponse { request_id: String, status: u16, headers: HashMap<String, String>, body: Option<String> },
    /// Send this message back to the agent.
    Send(Message),
    /// Nothing to do.
    Ignore,
}

/// Whether a message's body can be put in Base64.
pub open spec fn encodable(msg: Message) -> bool {
    msg matches Message::HttpResponse { body: Some(b), .. } ==> base64_len(b@.len()) <= usize::MAX
}

/// What to do with `msg` from an agent that registered as `agent_id`
/// (`None` before it registered). Registration is always handled; a
/// heartbeat, an answer to a request and TCP connect and disconnect notices
/// only from a registered agent; everything else is ignored.
pub fn on_agent_message(agent_id: &Option<String>, msg: Message) -> (r: AgentAction)
    requires
        encodable(msg),
    ensures
        match msg {
            Message::Register { subdomain, local_port, local_host, protocol, api_key } => r == AgentAction::Register {
                subdomain,
                local_port,
                local_host,
                protocol,
                api_key,
            },
            Message::Heartbeat => match *agent_id {
                Some(id) => r == AgentAction::Heartbeat(id),
                None => r is Ignore,
            },
            Message::HttpResponse { request_id, status, headers, body } => match *agent_id {
                Some(_) => (r matches AgentAction::DeliverResponse { request_id: rid, status: st, headers: h, body: b }
                    && rid == request_id && st == status && h == headers && match body {
                    Some(bytes) => b matches Some(text) && text@ == spec_base64_encode(bytes@) && response_body(b)
                        == bytes@,
                    None => b is None,
                }),
                None => r is Ignore,
            },
            Message::TcpConnect { connection_id, client_ip } => match *agent_id {
                Some(_) => r == AgentAction::Send(Message::TcpConnect { connection_id, client_ip }),
                None => r is Ignore,
            },
            Message::TcpDisconnect { connection_id } => match *agent_id {
                Some(_) => r == AgentAction::Send(Message::TcpDisconnect { connection_id }),
                None => r is Ignore,
            },
            _ => r is Ignore,
        },
{
    match msg {
        Message::Register { subdomain, local_port, local_host, protocol, api_key } => AgentAction::Register {
            subdomain,
            local_port,
            local_host,
            protocol,
            api_key,
        },
        Message::Heartbeat => match agent_id {
            Some(id) => AgentAction::Heartbeat(id.clone()),
            None => AgentAction::Ignore,
        },
        Message::HttpResponse { request_id, status, headers, body } => match agent_id {
            Some(_) => {
                let body_text = match body {
                    Some(bytes) => Some(base64_encode(bytes.as_slice())),
                    None => None,
                };
                AgentAction::DeliverResponse { request_id, status, headers, body: body_text }
            },
            None => AgentAction::Ignore,
        },
        Message::TcpConnect { connection_id, client_ip } => match agent_id {
            Some(_) => AgentAction::Send(Message::TcpConnect { connection_id, client_ip }),
            None => AgentAction::Ignore,
        },
        Message::TcpDisconnect { connection_id } => match agent_id {
            Some(_) => AgentAction::Send(Message::TcpDisconnect { connection_id }),
            None => AgentAction::Ignore,
        },
        _ => AgentAction::Ignore,
    }
}

/// The error sent to an agent whose API key did not pass: `valid` is
/// whether the key is known, or `None` when it could not be checked.
/// Nothing when it passed.
pub fn auth_failure(valid: Option<bool>) -> (r: Option<Message>)
    ensures
        match valid {
            Some(true) => r is None,
            Some(false) => r matches Some(Message::Error { message }) && message@ == "Invalid API key"@,
            None => r matches Some(Message::Error { message }) && message@ == "Authentication failed"@,
        },
{
    match valid {
        Some(true) => None,
        Some(false) => Some(Message::Error { message: String::from_str("Invalid API key") }),
        None => Some(Message::Error { message: String::from_str("Authentication failed") }),
    }
}

/// The welcome sent to an agent registered as `agent_id`.
pub fn welcome(agent_id: String, subdomain: String, protocol: String) -> (r: Message)
    ensures
        r == (Message::Welcome { agent_id, subdomain, protocol }),
{
    Message::Welcome { agent_id, subdomain, protocol }
}

} // verus!
