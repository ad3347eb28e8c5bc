//! The agents connected to this server and the HTTP requests waiting for
//! their answers.
use vstd::prelude::*;
use std::collections::HashMap;
use crate::codec::{base64_decode, spec_base64_decode, spec_base64_encode};
use crate::db::{Agent, Protocol, Server};
use crate::error::Error;
use crate::ids::{fresh_id, is_uuid_text};
use crate::proto::Message;
use crate::table::{Table, lemma_keys_where, lemma_keys_where_distinct, string_views};

verus! {

/// What this server knows of a connected agent.
#[derive(Debug)]
pub struct AgentState {
    pub subdomain: String,
    pub local_port: u16,
    pub local_host: String,
    pub protocol: Protocol,
    pub last_heartbeat: i64,
}

impl Clone for AgentState {
    fn clone(&self) -> (r: Self)
        ensures
            r == *self,
    {
        AgentState {
            subdomain: self.subdomain.clone(),
            local_port: self.local_port,
            local_host: self.local_host.clone(),
            protocol: self.protocol,
            last_heartbeat: self.last_heartbeat,
        }
    }
}

/// An agent's answer to a forwarded HTTP request.
#[derive(Debug)]
pub struct HttpResponse {
    pub status: u16,
    pub headers: HashMap<String, String>,
    pub body: Vec<u8>,
}

/// The agents connected to this server, by agent id, and the ids of the
/// requests waiting for an agent's answer.
pub struct AgentRegistry {
    server_id: String,
    agents: Table<AgentState>,
    pending: Table<()>,
}

/// The text of the error for a subdomain that another server serves.
pub open spec fn subdomain_taken_text(subdomain: Seq<char>, server_id: Seq<char>) -> Seq<char> {
    "Subdomain "@ + subdomain + " is on server "@ + server_id
}

/// Whether `existing`, the active agent registered for a subdomain, on the
/// server `owner`, keeps server `server_id` from registering it: it is on
/// another server, and that server is healthy.
pub open spec fn blocks_registration(server_id: Seq<char>, existing: Option<Agent>, owner: Option<Server>) -> bool {
    match (existing, owner) {
        (Some(a), Some(s)) => a.server_id@ != server_id && s.is_healthy,
        _ => false,
    }
}

/// Whether some agent among `agents` serves `subdomain`.
pub open spec fn serving(agents: Map<Seq<char>, AgentState>, subdomain: Seq<char>) -> bool {
    exists|id: Seq<char>| #[trigger] agents.contains_key(id) && agents[id].subdomain@ == subdomain
}

/// The body of an agent's answer: its Base64 text decoded, or nothing
/// when there is none or it does not decode.
pub open spec fn response_body(body: Option<String>) -> Seq<u8> {
    match body {
        Some(b) => match spec_base64_decode(b@) {
            Some(bytes) => bytes,
            None => Seq::empty(),
        },
        None => Seq::empty(),
    }
}

impl AgentRegistry {
    /// The id of this server.
    pub closed spec fn id(&self) -> Seq<char> {
        self.server_id@
    }

    /// The connected agents, by agent id.
    pub closed spec fn agents(&self) -> Map<Seq<char>, AgentState> {
        self.agents@
    }

    /// The ids of the requests waiting for an answer.
    pub closed spec fn waiting(&self) -> Set<Seq<char>> {
        self.pending@.dom()
    }

    /// A registry of server `server_id` with no agents and no requests.
    pub fn new(server_id: String) -> (r: Self)
        ensures
            r.id() == server_id@,
            r.agents() == Map::<Seq<char>, AgentState>::empty(),
            r.waiting() == Set::<Seq<char>>::empty(),
    {
        Self { server_id, agents: Table::new(), pending: Table::new() }
    }

    /// The id of this server.
    pub fn server_id(&self) -> (r: &String)
        ensures
            r@ == self.id(),
    {
        &self.server_id
    }

    /// The server whose health decides whether `existing`, the active agent
    /// already registered for a subdomain, blocks a new registration: its
    /// server, when that is another server.
    pub fn owner_to_check(&self, existing: &Option<Agent>) -> (r: Option<String>)
        ensures
            match existing {
                Some(a) => if a.server_id@ != self.id() {
                    r matches Some(s) && s@ == a.server_id@
                } else {
                    r is None
                },
                None => r is None,
            },
    {
        match existing {
            Some(a) => {
                if a.server_id == self.server_id {
                    None
                } else {
                    Some(a.server_id.clone())
                }
            },
            None => None,
        }
    }

    /// Whether `subdomain` may be registered here, given `existing`, the
    /// active agent registered for it, and `owner`, the server that agent is
    /// on: it may not when that agent is on another server that is healthy.
    pub fn check_subdomain(&self, subdomain: &str, existing: &Option<Agent>, owner: &Option<Server>) -> (r: Result<(), Error>)
        ensures
            blocks_registration(self.id(), *existing, *owner) ==> (r matches Err(Error::SubdomainTaken(m)) && m@
                == subdomain_taken_text(subdomain@, existing->Some_0.server_id@)),
            !blocks_registration(self.id(), *existing, *owner) ==> r is Ok,
    {
        match existing {
            Some(a) => {
                if a.server_id != self.server_id {
                    match owner {
                        Some(s) => {
                            if s.is_healthy {
                                let mut m = String::from_str("Subdomain ");
                                m.append(subdomain);
                                m.append(" is on server ");
                                m.append(a.server_id.as_str());
                                return Err(Error::SubdomainTaken(m));
                            }
                        },
                        None => {},
                    }
                }
                Ok(())
            },
            None => Ok(()),
        }
    }

    /// The record stored for an agent registered here at `now`.
    pub fn agent_record(
        &self,
        agent_id: &str,
        connection_token: &str,
        subdomain: &str,
        local_port: u16,
        local_host: &str,
        protocol: Protocol,
        now: i64,
    ) -> (r: Agent)
        ensures
            r.id@ == agent_id@,
            r.subdomain@ == subdomain@,
            r.server_id@ == self.id(),
            r.tunnel_id is None,
            r.local_port == local_port,
            r.local_host@ == local_host@,
            r.protocol == protocol,
            r.connection_token@ == connection_token@,
            r.connected_at == now,
            r.last_heartbeat == now,
            r.active,
    {
        Agent {
            id: String::from_str(agent_id),
            subdomain: String::from_str(subdomain),
            server_id: self.server_id.clone(),
            tunnel_id: None,
            local_port,
            local_host: String::from_str(local_host),
            protocol,
            connection_token: String::from_str(connection_token),
            connected_at: now,
            last_heartbeat: now,
            active: true,
        }
    }

    /// The server serving a subdomain, given `found`, the agent the database
    /// holds for it: that agent's server, when the agent is active.
    pub fn get_agent_server(&self, found: &Option<Agent>) -> (r: Option<String>)
        ensures
            match *found {
                Some(a) => if a.active {
                    r == Some(a.server_id)
                } else {
                    r is None
                },
                None => r is None,
            },
    {
        match found {
            Some(a) => {
                if a.active {
                    Some(a.server_id.clone())
                } else {
                    None
                }
            },
            None => None,
        }
    }

    /// The record of a new agent registering `subdomain` here at `now`, under
    /// a fresh random agent id and connection token.
    pub fn new_agent_record(&self, subdomain: &str, local_port: u16, local_host: &str, protocol: Protocol, now: i64) -> (r: Agent)
        ensures
            is_uuid_text(r.id@),
            is_uuid_text(r.connection_token@),
            r.subdomain@ == subdomain@,
            r.server_id@ == self.id(),
            r.tunnel_id is None,
            r.local_port == local_port,
            r.local_host@ == local_host@,
            r.protocol == protocol,
            r.connected_at == now,
            r.last_heartbeat == now,
            r.active,
    {
        let agent_id = fresh_id();
        let connection_token = fresh_id();
        self.agent_record(agent_id.as_str(), connection_token.as_str(), subdomain, local_port, local_host, protocol, now)
    }

    /// What this server keeps of an agent whose record is `record`.
    pub open spec fn state_of(record: Agent) -> AgentState {
        AgentState {
            subdomain: record.subdomain,
            local_port: record.local_port,
            local_host: record.local_host,
            protocol: record.protocol,
            last_heartbeat: record.last_heartbeat,
        }
    }

    /// Registers the agent of `record` here, given `existing`, the active
    /// agent the database holds for its subdomain, and `owner`, the server
    /// that agent is on. When that agent is on another server that is
    /// healthy, the subdomain is taken and nothing changes; otherwise the
    /// agent is recorded under its id.
    pub fn register(&mut self, existing: &Option<Agent>, owner: &Option<Server>, record: Agent) -> (r: Result<(), Error>)
        ensures
            blocks_registration(old(self).id(), *existing, *owner) ==> (r matches Err(Error::SubdomainTaken(m)) && m@
                == subdomain_taken_text(record.subdomain@, existing->Some_0.server_id@) && final(self).agents()
                == old(self).agents()),
            !blocks_registration(old(self).id(), *existing, *owner) ==> (r is Ok && final(self).agents()
                == old(self).agents().insert(record.id@, Self::state_of(record))),
            final(self).waiting() == old(self).waiting(),
            final(self).id() == old(self).id(),
    {
        match self.check_subdomain(record.subdomain.as_str(), existing, owner) {
            Err(e) => Err(e),
            Ok(()) => {
                let Agent { id, subdomain, local_port, local_host, protocol, last_heartbeat, .. } = record;
                let state = AgentState { subdomain, local_port, local_host, protocol, last_heartbeat };
                self.agents.insert(id, state);
                Ok(())
            },
        }
    }

    /// Records a heartbeat of agent `agent_id` received at `now`; an agent
    /// not connected here is left alone.
    pub fn update_heartbeat(&mut self, agent_id: &str, now: i64)
        ensures
            match old(self).agents().get(agent_id@) {
                Some(st) => final(self).agents() == old(self).agents().insert(
                    agent_id@,
                    AgentState { last_heartbeat: now, ..st },
                ),
                None => final(self).agents() == old(self).agents(),
            },
            final(self).waiting() == old(self).waiting(),
            final(self).id() == old(self).id(),
    {
        match self.agents.remove(agent_id) {
            Some(mut st) => {
                st.last_heartbeat = now;
                self.agents.insert(String::from_str(agent_id), st);
                assert(self.agents@ =~= old(self).agents@.insert(agent_id@, st));
            },
            None => {
                assert(self.agents@ =~= old(self).agents@);
            },
        }
    }

    /// Forgets the agent `agent_id`, returning what was known of it.
    pub fn unregister(&mut self, agent_id: &str) -> (r: Option<AgentState>)
        ensures
            final(self).agents() == old(self).agents().remove(agent_id@),
            r == old(self).agents().get(agent_id@),
            final(self).waiting() == old(self).waiting(),
            final(self).id() == old(self).id(),
    {
        let r = self.agents.remove(agent_id);
        r
    }

    /// An agent serving `subdomain`, with its id, if there is one.
    pub fn get_by_subdomain(&self, subdomain: &str) -> (r: Option<(String, AgentState)>)
        ensures
            match r {
                Some((id, st)) => self.agents().contains_key(id@) && self.agents()[id@] == st && st.subdomain@
                    == subdomain@,
                None => forall|id: Seq<char>| #[trigger] self.agents().contains_key(id) ==> self.agents()[id].subdomain@
                    != subdomain@,
            },
            r is Some <==> serving(self.agents(), subdomain@),
    {
        let n = self.agents.len();
        let mut i: usize = 0;
        while i < n
            invariant
                n == self.agents.keys().len(),
                n == self.agents.values().len(),
                i <= n,
                forall|j: int| 0 <= j < i ==> (#[trigger] self.agents.values()[j]).subdomain@ != subdomain@,
                forall|j: int| #![trigger self.agents.keys()[j]] 0 <= j < n ==> self.agents@.contains_key(self.agents.keys()[j])
                    && self.agents@[self.agents.keys()[j]] == self.agents.values()[j],
            decreases n - i,
        {
            let st = self.agents.value_at(i);
            if crate::text::str_eq(st.subdomain.as_str(), subdomain) {
                let id = self.agents.key_at(i);
                assert(self.agents@.contains_key(self.agents.keys()[i as int]));
                return Some((id.clone(), st.clone()));
            }
            i = i + 1;
        }
        proof {
            assert forall|id: Seq<char>| #[trigger] self.agents().contains_key(id) implies self.agents()[id].subdomain@
                != subdomain@ by {
                let j = choose|j: int| 0 <= j < self.agents.keys().len() && self.agents.keys()[j] == id;
                assert(self.agents.values()[j].subdomain@ != subdomain@);
            }
        }
        None
    }

    /// The message to hand to agent `agent_id`'s connection, or the error
    /// that it is not connected here.
    pub fn send_message(&self, agent_id: &str, message: Message) -> (r: Result<Message, Error>)
        ensures
            self.agents().contains_key(agent_id@) ==> r == Ok::<Message, Error>(message),
            !self.agents().contains_key(agent_id@) ==> (r matches Err(Error::AgentNotFound(m)) && m@ == agent_id@),
    {
        if self.agents.contains_key(agent_id) {
            Ok(message)
        } else {
            Err(Error::AgentNotFound(String::from_str(agent_id)))
        }
    }

    /// Starts waiting for the answer to request `request_id`.
    pub fn create_pending_request(&mut self, request_id: &str)
        ensures
            final(self).waiting() == old(self).waiting().insert(request_id@),
            final(self).agents() == old(self).agents(),
            final(self).id() == old(self).id(),
    {
        self.pending.insert(String::from_str(request_id), ());
        assert(self.pending@.dom() =~= old(self).pending@.dom().insert(request_id@));
    }

    /// Stops waiting for the answer to request `request_id`.
    pub fn remove_pending_request(&mut self, request_id: &str)
        ensures
            final(self).waiting() == old(self).waiting().remove(request_id@),
            final(self).agents() == old(self).agents(),
            final(self).id() == old(self).id(),
    {
        let _ = self.pending.remove(request_id);
        assert(self.pending@.dom() =~= old(self).pending@.dom().remove(request_id@));
    }

    /// Takes an agent's answer to request `request_id`: when the request is
    /// waiting, it stops waiting and the response (with the Base64 body
    /// decoded) is returned to be delivered; otherwise the answer is dropped.
    pub fn handle_response(&mut self, request_id: String, status: u16, headers: HashMap<String, String>, body: Option<String>) -> (r: Option<HttpResponse>)
        ensures
            final(self).waiting() == old(self).waiting().remove(request_id@),
            final(self).agents() == old(self).agents(),
            final(self).id() == old(self).id(),
            old(self).waiting().contains(request_id@) ==> (r matches Some(resp) && resp.status == status && resp.headers
                == headers && resp.body@ == response_body(body)),
            !old(self).waiting().contains(request_id@) ==> r is None,
    {
        let was = self.pending.remove(request_id.as_str());
        assert(self.pending@.dom() =~= old(self).pending@.dom().remove(request_id@));
        match was {
            Some(_) => {
                let body_bytes = match body {
                    Some(b) => match base64_decode(b.as_str()) {
                        Some(v) => v,
                        None => Vec::new(),
                    },
                    None => Vec::new(),
                };
                Some(HttpResponse { status, headers, body: body_bytes })
            },
            None => None,
        }
    }

    /// The agents whose last heartbeat is before `now - timeout_ms`.
    pub fn stale_agents(&self, timeout_ms: i64, now: i64) -> (r: Vec<String>)
        requires
            i64::MIN <= now - timeout_ms <= i64::MAX,
        ensures
            forall|id: Seq<char>| #[trigger] string_views(r@).contains(id) <==> (self.agents().contains_key(id)
                && self.agents()[id].last_heartbeat < now - timeout_ms),
            string_views(r@).no_duplicates(),
    {
        let cutoff = now - timeout_ms;
        let n = self.agents.len();
        let f = |s: &AgentState| -> (b: bool)
            ensures
                b == (s.last_heartbeat < cutoff),
            { s.last_heartbeat < cutoff };
        let ghost pred = |s: AgentState| s.last_heartbeat < cutoff;
        let r = self.agents.select_keys(&f, true, Ghost(pred));
        proof {
            let sel = |v: AgentState| pred(v) == true;
            lemma_keys_where_distinct(self.agents.keys(), self.agents.values(), sel, n as int);
            assert forall|id: Seq<char>| #[trigger] string_views(r@).contains(id) <==> (self.agents().contains_key(id)
                && self.agents()[id].last_heartbeat < cutoff) by {
                lemma_keys_where(self.agents.keys(), self.agents.values(), sel, n as int, id);
                if self.agents().contains_key(id) {
                    let j = choose|j: int| 0 <= j < n && self.agents.keys()[j] == id;
                    if exists|j2: int| 0 <= j2 < n && self.agents.keys()[j2] == id && sel(self.agents.values()[j2]) {
                        let j2 = choose|j2: int| 0 <= j2 < n && self.agents.keys()[j2] == id && sel(self.agents.values()[j2]);
                        assert(j2 == j);
                    }
                }
            }
        }
        r
    }

    /// The number of connected agents.
    pub fn count(&self) -> (r: usize)
        ensures
            r == self.agents().len(),
            self.agents().dom().finite(),
    {
        self.agents.len()
    }
}

/// A registration is found by its subdomain: after `register` records the
/// agent, `get_by_subdomain` of its subdomain answers with an agent.
pub proof fn lemma_registration_is_found(before: AgentRegistry, after: AgentRegistry, agent_id: Seq<char>, st: AgentState)
    requires
        after.agents() == before.agents().insert(agent_id, st),
    ensures
        serving(after.agents(), st.subdomain@),
{
    assert(after.agents().contains_key(agent_id) && after.agents()[agent_id].subdomain@ == st.subdomain@);
}

/// Registering an agent under a new id makes `count` grow by one.
pub proof fn lemma_registration_counts(before: AgentRegistry, after: AgentRegistry, agent_id: Seq<char>, st: AgentState)
    requires
        after.agents() == before.agents().insert(agent_id, st),
        !before.agents().contains_key(agent_id),
        before.agents().dom().finite(),
    ensures
        after.agents().len() == before.agents().len() + 1,
{
}

/// After `unregister` an agent is no longer connected, and `count` falls
/// by one when it was.
pub proof fn lemma_unregistration(before: AgentRegistry, after: AgentRegistry, agent_id: Seq<char>)
    requires
        after.agents() == before.agents().remove(agent_id),
        before.agents().dom().finite(),
    ensures
        !after.agents().contains_key(agent_id),
        before.agents().contains_key(agent_id) ==> after.agents().len() == before.agents().len() - 1,
{
}

/// Unregistering an agent just registered under a new id leaves the
/// connected agents as they were.
pub proof fn lemma_unregister_undoes_register(
    before: AgentRegistry,
    mid: AgentRegistry,
    after: AgentRegistry,
    agent_id: Seq<char>,
    st: AgentState,
)
    requires
        !before.agents().contains_key(agent_id),
        mid.agents() == before.agents().insert(agent_id, st),
        after.agents() == mid.agents().remove(agent_id),
    ensures
        after.agents() == before.agents(),
{
    assert(after.agents() =~= before.agents());
}

/// A request waits from `create_pending_request` on, and once
/// `handle_response` has taken an answer to it, it waits no more: a second
/// answer is dropped.
pub proof fn lemma_answer_taken_once(r0: AgentRegistry, r1: AgentRegistry, r2: AgentRegistry, request_id: Seq<char>)
    requires
        r1.waiting() == r0.waiting().insert(request_id),
        r2.waiting() == r1.waiting().remove(request_id),
    ensures
        r1.waiting().contains(request_id),
        !r2.waiting().contains(request_id),
{
}

/// An agent whose heartbeat `update_heartbeat` recorded at `beat` is not
/// listed by `stale_agents(timeout_ms, now)` while less than `timeout_ms`
/// has passed since.
pub proof fn lemma_heartbeat_keeps_agent(
    before: AgentRegistry,
    after: AgentRegistry,
    agent_id: Seq<char>,
    beat: i64,
    now: i64,
    timeout_ms: i64,
)
    requires
        before.agents().contains_key(agent_id),
        after.agents() == before.agents().insert(
            agent_id,
            AgentState { last_heartbeat: beat, ..before.agents()[agent_id] },
        ),
        now - beat < timeout_ms,
    ensures
        after.agents().contains_key(agent_id),
        !(after.agents()[agent_id].last_heartbeat < now - timeout_ms),
{
}

/// The answer that `handle_response` hands to a waiting request carries the
/// bytes the agent sent: the body that `on_agent_message` put in Base64
/// decodes back to them.
pub proof fn lemma_answer_carries_body(text: String, bytes: Seq<u8>)
    requires
        text@ == spec_base64_encode(bytes),
        spec_base64_decode(text@) == Some(bytes),
    ensures
        response_body(Some(text)) == bytes,
{
}

} // verus!
