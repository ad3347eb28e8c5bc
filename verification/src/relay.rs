//! Tracking of connection attempts, and the TURN-style relay used when no
//! direct connection can be made.
use vstd::prelude::*;
use vstd::set_lib::lemma_len_subset;
use crate::error::Error;
use crate::table::Table;

verus! {

broadcast use vstd::set::group_set_axioms;

/// What is known of one connection attempt.
#[derive(Debug, Clone)]
pub struct ConnectionStats {
    pub session_id: String,
    pub subdomain: String,
    pub client_addr: String,
    pub agent_id: String,
    pub direct_attempt: bool,
    pub direct_success: bool,
    pub relay_used: bool,
    pub latency_ms: u64,
    pub created_at: i64,
    pub completed_at: Option<i64>,
}

/// The counters of a tracker.
#[derive(Debug, Clone, Copy)]
pub struct ConnectionTrackerStats {
    pub total_attempts: usize,
    pub direct_successes: usize,
    pub relay_used: usize,
}

/// Counts connection attempts and how they ended.
pub struct ConnectionTracker {
    stats: Table<ConnectionStats>,
    total_attempts: usize,
    direct_successes: usize,
    relay_used: usize,
}

/// A counter after one more event; counters stop at `usize::MAX`.
pub open spec fn bump(n: usize) -> usize {
    if n == usize::MAX {
        n
    } else {
        (n + 1) as usize
    }
}

fn bump_exec(n: usize) -> (r: usize)
    ensures
        r == bump(n),
{
    if n == usize::MAX {
        n
    } else {
        n + 1
    }
}

/// The entries whose creation time is after `cutoff`.
pub open spec fn created_after<V>(m: Map<Seq<char>, V>, created: spec_fn(V) -> i64, cutoff: int) -> Map<
    Seq<char>,
    V,
> {
    m.restrict(m.dom().filter(|k: Seq<char>| created(m[k]) > cutoff))
}

/// The attempts on record that have not succeeded yet.
pub open spec fn unfinished(m: Map<Seq<char>, ConnectionStats>) -> Set<Seq<char>> {
    m.dom().filter(|k: Seq<char>| !m[k].direct_success)
}

proof fn lemma_unfinished_finite(m: Map<Seq<char>, ConnectionStats>)
    requires
        m.dom().finite(),
    ensures
        unfinished(m).finite(),
        unfinished(m).len() <= m.dom().len(),
{
    lemma_len_subset(unfinished(m), m.dom());
}

proof fn lemma_unfinished_insert(m: Map<Seq<char>, ConnectionStats>, k: Seq<char>, v: ConnectionStats)
    requires
        m.dom().finite(),
    ensures
        unfinished(m.insert(k, v)).finite(),
        unfinished(m.insert(k, v)).len() <= unfinished(m).len() + 1,
        v.direct_success ==> unfinished(m.insert(k, v)) == unfinished(m).remove(k),
        m.contains_key(k) && m[k].direct_success == v.direct_success ==> unfinished(m.insert(k, v)) == unfinished(m),
{
    let m2 = m.insert(k, v);
    lemma_unfinished_finite(m);
    lemma_unfinished_finite(m2);
    assert(unfinished(m2).subset_of(unfinished(m).insert(k)));
    lemma_len_subset(unfinished(m2), unfinished(m).insert(k));
    if v.direct_success {
        assert(unfinished(m2) =~= unfinished(m).remove(k));
    }
    if m.contains_key(k) && m[k].direct_success == v.direct_success {
        assert(unfinished(m2) =~= unfinished(m));
    }
}

proof fn lemma_unfinished_shrinks(m: Map<Seq<char>, ConnectionStats>, m2: Map<Seq<char>, ConnectionStats>)
    requires
        m.dom().finite(),
        m2.dom().subset_of(m.dom()),
        forall|k: Seq<char>| #[trigger] m2.contains_key(k) ==> m2[k] == m[k],
    ensures
        unfinished(m2).len() <= unfinished(m).len(),
{
    lemma_unfinished_finite(m);
    assert(unfinished(m2).subset_of(unfinished(m)));
    lemma_len_subset(unfinished(m2), unfinished(m));
}

impl ConnectionTracker {
    /// Every direct success is one of the attempts: the successes, together
    /// with the attempts on record that have not succeeded, are no more than
    /// the attempts counted (unless that count has reached its limit).
    #[verifier::type_invariant]
    closed spec fn counts_attempts(&self) -> bool {
        self.total_attempts == usize::MAX || self.direct_successes + unfinished(self.stats@).len()
            <= self.total_attempts
    }

    /// The attempts, by session id.
    pub closed spec fn sessions(&self) -> Map<Seq<char>, ConnectionStats> {
        self.stats@
    }

    /// The counters.
    pub closed spec fn counters(&self) -> ConnectionTrackerStats {
        ConnectionTrackerStats {
            total_attempts: self.total_attempts,
            direct_successes: self.direct_successes,
            relay_used: self.relay_used,
        }
    }

    /// A tracker with no attempts and zero counters.
    pub fn new() -> (r: Self)
        ensures
            r.sessions() == Map::<Seq<char>, ConnectionStats>::empty(),
            r.counters().total_attempts == 0,
            r.counters().direct_successes == 0,
            r.counters().relay_used == 0,
    {
        let stats: Table<ConnectionStats> = Table::new();
        assert(unfinished(stats@) =~= Set::<Seq<char>>::empty());
        Self { stats, total_attempts: 0, direct_successes: 0, relay_used: 0 }
    }

    /// Takes the table out, leaving an empty one.
    fn take_stats(&mut self) -> (r: Table<ConnectionStats>)
        ensures
            r@ == old(self).stats@,
            final(self).stats@ == Map::<Seq<char>, ConnectionStats>::empty(),
            final(self).counters() == old(self).counters(),
    {
        proof {
            use_type_invariant(&*self);
        }
        let mut stats: Table<ConnectionStats> = Table::new();
        assert(unfinished(stats@) =~= Set::<Seq<char>>::empty());
        std::mem::swap(&mut self.stats, &mut stats);
        stats
    }

    /// Records a new attempt made at time `now` (milliseconds), replacing
    /// any earlier record of the same session.
    pub fn track_attempt(
        &mut self,
        session_id: String,
        subdomain: String,
        client_addr: String,
        agent_id: String,
        direct_attempt: bool,
        now: i64,
    )
        ensures
            final(self).sessions() == old(self).sessions().insert(
                session_id@,
                ConnectionStats {
                    session_id,
                    subdomain,
                    client_addr,
                    agent_id,
                    direct_attempt,
                    direct_success: false,
                    relay_used: false,
                    latency_ms: 0,
                    created_at: now,
                    completed_at: None,
                },
            ),
            final(self).counters().total_attempts == bump(old(self).counters().total_attempts),
            final(self).counters().direct_successes == old(self).counters().direct_successes,
            final(self).counters().relay_used == old(self).counters().relay_used,
    {
        proof {
            use_type_invariant(&*self);
        }
        let mut stats = self.take_stats();
        let n = stats.len();
        let key = session_id.clone();
        let record = ConnectionStats {
            session_id,
            subdomain,
            client_addr,
            agent_id,
            direct_attempt,
            direct_success: false,
            relay_used: false,
            latency_ms: 0,
            created_at: now,
            completed_at: None,
        };
        let ghost before = stats@;
        stats.insert(key, record);
        proof {
            lemma_unfinished_insert(before, key@, record);
        }
        let total = bump_exec(self.total_attempts);
        *self = ConnectionTracker {
            stats,
            total_attempts: total,
            direct_successes: self.direct_successes,
            relay_used: self.relay_used,
        };
    }

    /// Records that the attempt of `session_id` succeeded at `now`, directly
    /// or through the relay. A direct success is counted only for a session
    /// that had not succeeded before, so that no more attempts succeed
    /// directly than are made; every relayed success is counted. Unknown
    /// sessions are ignored.
    pub fn mark_success(&mut self, session_id: &str, latency_ms: u64, direct: bool, now: i64)
        ensures
            match old(self).sessions().get(session_id@) {
                None => final(self).sessions() == old(self).sessions() && final(self).counters()
                    == old(self).counters(),
                Some(s) => final(self).sessions() == old(self).sessions().insert(
                    session_id@,
                    ConnectionStats { direct_success: true, latency_ms, completed_at: Some(now), ..s },
                ) && final(self).counters().total_attempts == old(self).counters().total_attempts && if direct {
                    final(self).counters().direct_successes == (if s.direct_success {
                        old(self).counters().direct_successes
                    } else {
                        bump(old(self).counters().direct_successes)
                    }) && final(self).counters().relay_used == old(self).counters().relay_used
                } else {
                    final(self).counters().relay_used == bump(old(self).counters().relay_used)
                        && final(self).counters().direct_successes == old(self).counters().direct_successes
                },
            },
    {
        proof {
            use_type_invariant(&*self);
        }
        let mut stats = self.take_stats();
        let n = stats.len();
        let ghost before = stats@;
        let mut direct_successes = self.direct_successes;
        let mut relay_used = self.relay_used;
        match stats.remove(session_id) {
            None => {
                assert(stats@ =~= before);
            },
            Some(mut stat) => {
                let first = !stat.direct_success;
                stat.direct_success = true;
                stat.latency_ms = latency_ms;
                stat.completed_at = Some(now);
                stats.insert(String::from_str(session_id), stat);
                assert(stats@ =~= before.insert(session_id@, stat));
                proof {
                    lemma_unfinished_insert(before, session_id@, stat);
                    lemma_unfinished_finite(before);
                }
                if direct {
                    if first {
                        direct_successes = bump_exec(direct_successes);
                    }
                } else {
                    relay_used = bump_exec(relay_used);
                }
            },
        }
        *self = ConnectionTracker { stats, total_attempts: self.total_attempts, direct_successes, relay_used };
    }

    /// Records that the attempt of `session_id` ended at `now` without a
    /// direct connection, and whether the relay was used instead. Unknown
    /// sessions are ignored.
    pub fn mark_failed(&mut self, session_id: &str, relay_used: bool, now: i64)
        ensures
            match old(self).sessions().get(session_id@) {
                None => final(self).sessions() == old(self).sessions() && final(self).counters()
                    == old(self).counters(),
                Some(s) => final(self).sessions() == old(self).sessions().insert(
                    session_id@,
                    ConnectionStats { completed_at: Some(now), relay_used: s.relay_used || relay_used, ..s },
                ) && final(self).counters().total_attempts == old(self).counters().total_attempts
                    && final(self).counters().direct_successes == old(self).counters().direct_successes
                    && final(self).counters().relay_used == (if relay_used {
                    bump(old(self).counters().relay_used)
                } else {
                    old(self).counters().relay_used
                }),
            },
    {
        proof {
            use_type_invariant(&*self);
        }
        let mut stats = self.take_stats();
        let n = stats.len();
        let ghost before = stats@;
        let mut relays = self.relay_used;
        match stats.remove(session_id) {
            None => {
                assert(stats@ =~= before);
            },
            Some(mut stat) => {
                stat.completed_at = Some(now);
                if relay_used {
                    stat.relay_used = true;
                    relays = bump_exec(relays);
                }
                stats.insert(String::from_str(session_id), stat);
                assert(stats@ =~= before.insert(session_id@, stat));
                proof {
                    lemma_unfinished_insert(before, session_id@, stat);
                }
            },
        }
        *self = ConnectionTracker {
            stats,
            total_attempts: self.total_attempts,
            direct_successes: self.direct_successes,
            relay_used: relays,
        };
    }

    /// The counters. No more attempts succeed directly than are made.
    pub fn get_stats(&self) -> (r: ConnectionTrackerStats)
        ensures
            r == self.counters(),
            r.direct_successes <= r.total_attempts,
    {
        proof {
            use_type_invariant(self);
        }
        ConnectionTrackerStats {
            total_attempts: self.total_attempts,
            direct_successes: self.direct_successes,
            relay_used: self.relay_used,
        }
    }

    /// The number of attempts on record.
    pub fn session_count(&self) -> (r: usize)
        ensures
            r == self.sessions().len(),
            self.sessions().dom().finite(),
    {
        self.stats.len()
    }

    /// The record of `session_id`, if any.
    pub fn session(&self, session_id: &str) -> (r: Option<&ConnectionStats>)
        ensures
            match r {
                Some(s) => self.sessions().contains_key(session_id@) && *s == self.sessions()[session_id@],
                None => !self.sessions().contains_key(session_id@),
            },
    {
        self.stats.get(session_id)
    }

    /// Forgets the attempts created at or before `now - max_age_ms`.
    pub fn cleanup_old(&mut self, max_age_ms: i64, now: i64)
        requires
            i64::MIN <= now - max_age_ms <= i64::MAX,
        ensures
            final(self).sessions() == created_after(old(self).sessions(), |s: ConnectionStats| s.created_at, now - max_age_ms),
            final(self).counters() == old(self).counters(),
    {
        proof {
            use_type_invariant(&*self);
        }
        let mut stats = self.take_stats();
        let n = stats.len();
        let ghost before = stats@;
        let cutoff = now - max_age_ms;
        let keep = |s: &ConnectionStats| -> (b: bool)
            ensures
                b == (s.created_at > cutoff),
            { s.created_at > cutoff };
        stats.retain_where(keep, Ghost(|s: ConnectionStats| s.created_at > cutoff));
        assert(stats@ =~= created_after(before, |s: ConnectionStats| s.created_at, cutoff as int));
        proof {
            lemma_unfinished_shrinks(before, stats@);
        }
        *self = ConnectionTracker {
            stats,
            total_attempts: self.total_attempts,
            direct_successes: self.direct_successes,
            relay_used: self.relay_used,
        };
    }
}

/// A connection relayed between a client and an agent.
#[derive(Debug, Clone)]
pub struct RelayConnection {
    pub session_id: String,
    pub client_addr: String,
    pub agent_id: String,
    pub client_socket: Option<String>,
    pub agent_socket: Option<String>,
    pub bytes_relayed: u64,
    pub created_at: i64,
}

/// Relays traffic for sessions that could not connect directly, and
/// records each closed relay with its tracker.
pub struct RelayServer {
    connections: Table<RelayConnection>,
    tracker: ConnectionTracker,
}

/// The relay endpoint of a session: `relay:` followed by its id.
pub open spec fn relay_endpoint(session_id: Seq<char>) -> Seq<char> {
    "relay:"@ + session_id
}

/// Whether `r` is the answer to relaying `len` bytes of `session_id` over
/// the relays `before`, leaving the relays `after`.
pub open spec fn relayed(
    before: Map<Seq<char>, RelayConnection>,
    after: Map<Seq<char>, RelayConnection>,
    session_id: Seq<char>,
    len: nat,
    r: Result<(), Error>,
) -> bool {
    match before.get(session_id) {
        Some(c) => r is Ok && after == before.insert(
            session_id,
            RelayConnection { bytes_relayed: (c.bytes_relayed + len) as u64, ..c },
        ),
        None => after == before && (r matches Err(Error::BadRequest(m)) && m@ == "Relay connection not found"@),
    }
}

impl RelayServer {
    /// The open relays, by session id.
    pub closed spec fn relays(&self) -> Map<Seq<char>, RelayConnection> {
        self.connections@
    }

    /// The tracker that closed relays are reported to.
    pub closed spec fn tracker_state(&self) -> ConnectionTracker {
        self.tracker
    }

    /// A relay server with no relays that reports to `tracker`.
    pub fn new(tracker: ConnectionTracker) -> (r: Self)
        ensures
            r.relays() == Map::<Seq<char>, RelayConnection>::empty(),
            r.tracker_state() == tracker,
    {
        Self { connections: Table::new(), tracker }
    }

    /// The tracker that closed relays are reported to.
    pub fn tracker(&self) -> (r: &ConnectionTracker)
        ensures
            *r == self.tracker_state(),
    {
        &self.tracker
    }

    /// Opens a relay for `session_id` at time `now`, replacing any open
    /// relay of that session, and returns its endpoint.
    pub fn create_relay(&mut self, session_id: String, client_addr: String, agent_id: String, now: i64) -> (r: Result<String, Error>)
        ensures
            r matches Ok(e) && e@ == relay_endpoint(session_id@),
            final(self).relays() == old(self).relays().insert(
                session_id@,
                RelayConnection {
                    session_id,
                    client_addr,
                    agent_id,
                    client_socket: None,
                    agent_socket: None,
                    bytes_relayed: 0,
                    created_at: now,
                },
            ),
            final(self).tracker_state() == old(self).tracker_state(),
    {
        let mut endpoint = String::from_str("relay:");
        endpoint.append(session_id.as_str());
        let key = session_id.clone();
        let connection = RelayConnection {
            session_id,
            client_addr,
            agent_id,
            client_socket: None,
            agent_socket: None,
            bytes_relayed: 0,
            created_at: now,
        };
        self.connections.insert(key, connection);
        Ok(endpoint)
    }

    fn relay(&mut self, session_id: &str, data: &Vec<u8>) -> (r: Result<(), Error>)
        requires
            old(self).relays().contains_key(session_id@) ==> old(self).relays()[session_id@].bytes_relayed + data@.len() <= u64::MAX,
        ensures
            relayed(old(self).relays(), final(self).relays(), session_id@, data@.len(), r),
            final(self).tracker_state() == old(self).tracker_state(),
    {
        match self.connections.remove(session_id) {
            Some(mut conn) => {
                conn.bytes_relayed = conn.bytes_relayed + data.len() as u64;
                self.connections.insert(String::from_str(session_id), conn);
                assert(self.connections@ =~= old(self).connections@.insert(session_id@, conn));
                Ok(())
            },
            None => {
                assert(self.connections@ =~= old(self).connections@);
                Err(Error::BadRequest(String::from_str("Relay connection not found")))
            },
        }
    }

    /// Relays `data` from the client to the agent of `session_id`, counting
    /// its bytes; fails when the session has no relay.
    pub fn relay_to_agent(&mut self, session_id: &str, data: Vec<u8>) -> (r: Result<(), Error>)
        requires
            old(self).relays().contains_key(session_id@) ==> old(self).relays()[session_id@].bytes_relayed + data@.len() <= u64::MAX,
        ensures
            relayed(old(self).relays(), final(self).relays(), session_id@, data@.len(), r),
            final(self).tracker_state() == old(self).tracker_state(),
    {
        self.relay(session_id, &data)
    }

    /// Relays `data` from the agent to the client of `session_id`, counting
    /// its bytes; fails when the session has no relay.
    pub fn relay_to_client(&mut self, session_id: &str, data: Vec<u8>) -> (r: Result<(), Error>)
        requires
            old(self).relays().contains_key(session_id@) ==> old(self).relays()[session_id@].bytes_relayed + data@.len() <= u64::MAX,
        ensures
            relayed(old(self).relays(), final(self).relays(), session_id@, data@.len(), r),
            final(self).tracker_state() == old(self).tracker_state(),
    {
        self.relay(session_id, &data)
    }

    /// Closes the relay of `session_id` at time `now`; when one was open,
    /// the tracker records the session as ended through the relay.
    pub fn close_relay(&mut self, session_id: &str, now: i64)
        ensures
            final(self).relays() == old(self).relays().remove(session_id@),
            old(self).relays().contains_key(session_id@) ==> final(self).tracker_state().sessions()
                == (match old(self).tracker_state().sessions().get(session_id@) {
                Some(s) => old(self).tracker_state().sessions().insert(
                    session_id@,
                    ConnectionStats { completed_at: Some(now), relay_used: true, ..s },
                ),
                None => old(self).tracker_state().sessions(),
            }) && final(self).tracker_state().counters().relay_used == (if old(
                self,
            ).tracker_state().sessions().contains_key(session_id@) {
                bump(old(self).tracker_state().counters().relay_used)
            } else {
                old(self).tracker_state().counters().relay_used
            }) && final(self).tracker_state().counters().total_attempts == old(self).tracker_state().counters().total_attempts
                && final(self).tracker_state().counters().direct_successes == old(self).tracker_state().counters().direct_successes,
            !old(self).relays().contains_key(session_id@) ==> final(self).tracker_state() == old(self).tracker_state(),
    {
        match self.connections.remove(session_id) {
            Some(_conn) => {
                self.tracker.mark_failed(session_id, true, now);
            },
            None => {},
        }
    }

    /// The number of open relays.
    pub fn active_count(&self) -> (r: usize)
        ensures
            r == self.relays().len(),
            self.relays().dom().finite(),
    {
        self.connections.len()
    }

    /// Closes, without reporting them, the relays created at or before
    /// `now - max_age_ms`.
    pub fn cleanup_old(&mut self, max_age_ms: i64, now: i64)
        requires
            i64::MIN <= now - max_age_ms <= i64::MAX,
        ensures
            final(self).relays() == created_after(old(self).relays(), |c: RelayConnection| c.created_at, now - max_age_ms),
            final(self).tracker_state() == old(self).tracker_state(),
    {
        let cutoff = now - max_age_ms;
        let keep = |c: &RelayConnection| -> (b: bool)
            ensures
                b == (c.created_at > cutoff),
            { c.created_at > cutoff };
        self.connections.retain_where(keep, Ghost(|c: RelayConnection| c.created_at > cutoff));
        assert(self.connections@ =~= created_after(old(self).connections@, |c: RelayConnection| c.created_at, cutoff as int));
    }
}

/// Sends UDP punch packets for a while to open a NAT mapping.
pub struct UdpHolePuncher {
    punch_duration_ms: u64,
    punch_interval_ms: u64,
}

impl UdpHolePuncher {
    /// Punches for five seconds, one packet every 200 milliseconds.
    pub fn new() -> (r: Self)
        ensures
            r.duration_ms() == 5000,
            r.interval_ms() == 200,
    {
        Self { punch_duration_ms: 5000, punch_interval_ms: 200 }
    }

    /// How long to keep punching, in milliseconds.
    pub closed spec fn duration_ms(&self) -> u64 {
        self.punch_duration_ms
    }

    /// The pause between punch packets, in milliseconds.
    pub closed spec fn interval_ms(&self) -> u64 {
        self.punch_interval_ms
    }

    /// How long to keep punching, in milliseconds.
    pub fn punch_duration_ms(&self) -> (r: u64)
        ensures
            r == self.duration_ms(),
    {
        self.punch_duration_ms
    }

    /// The pause between punch packets, in milliseconds.
    pub fn punch_interval_ms(&self) -> (r: u64)
        ensures
            r == self.interval_ms(),
    {
        self.punch_interval_ms
    }

    /// Whether another punch packet is due after `elapsed_ms` milliseconds
    /// of punching.
    pub fn keeps_punching(&self, elapsed_ms: u64) -> (r: bool)
        ensures
            r == (elapsed_ms < self.duration_ms()),
    {
        elapsed_ms < self.punch_duration_ms
    }
}

impl Default for UdpHolePuncher {
    fn default() -> (r: Self)
        ensures
            r.duration_ms() == 5000,
            r.interval_ms() == 200,
    {
        Self::new()
    }
}

/// Relaying over a session whose relay was just created succeeds.
pub proof fn lemma_relay_after_create(
    before: Map<Seq<char>, RelayConnection>,
    conn: RelayConnection,
    session_id: Seq<char>,
    len: nat,
    r: Result<(), Error>,
    after: Map<Seq<char>, RelayConnection>,
)
    requires
        relayed(before.insert(session_id, conn), after, session_id, len, r),
    ensures
        r is Ok,
{
}

/// Relaying over a session whose relay was closed fails and changes nothing.
pub proof fn lemma_relay_after_close(
    before: Map<Seq<char>, RelayConnection>,
    session_id: Seq<char>,
    len: nat,
    r: Result<(), Error>,
    after: Map<Seq<char>, RelayConnection>,
)
    requires
        relayed(before.remove(session_id), after, session_id, len, r),
    ensures
        r is Err,
        after == before.remove(session_id),
{
}

/// Opening a relay for a session that had none adds one to `active_count`,
/// and closing it again takes that one away, leaving the open relays as
/// they were.
pub proof fn lemma_close_undoes_create(
    before: RelayServer,
    mid: RelayServer,
    after: RelayServer,
    session_id: Seq<char>,
    conn: RelayConnection,
)
    requires
        !before.relays().contains_key(session_id),
        before.relays().dom().finite(),
        mid.relays() == before.relays().insert(session_id, conn),
        after.relays() == mid.relays().remove(session_id),
    ensures
        mid.relays().len() == before.relays().len() + 1,
        after.relays().len() == mid.relays().len() - 1,
        after.relays() == before.relays(),
{
    assert(after.relays() =~= before.relays());
}

} // verus!
