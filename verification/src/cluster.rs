//! Leader election among the servers of the cluster. Each heartbeat, a
//! server reads the shared cluster state and decides what to do about the
//! leadership; the database then settles races between servers.
use vstd::prelude::*;
use crate::db::ClusterState;
use crate::text::str_eq;

verus! {

/// What a server does about the leadership after reading the state.
#[derive(Debug, Clone, Copy, PartialEq, Eq, Structural)]
pub enum LeaderAction {
    /// Claim the leadership for the next term.
    TryBecomeLeader,
    /// Renew this server's lease.
    RenewLeadership,
    /// Another server leads: this one is not the leader.
    StepDown,
}

/// Whether the leader's lease in `state` has run out at `now`: more than
/// `leader_timeout_ms` (read as a signed number) has passed since its last
/// renewal.
pub open spec fn lease_expired(state: ClusterState, now: i64, leader_timeout_ms: u64) -> bool {
    now - state.last_heartbeat > leader_timeout_ms as i64
}

/// What server `server_id` does at `now`, given the cluster state: claim
/// the leadership when there is no state, no leader or an expired lease;
/// renew it when it leads; otherwise step down.
pub open spec fn spec_leader_action(state: Option<ClusterState>, server_id: Seq<char>, now: i64, leader_timeout_ms: u64) -> LeaderAction {
    match state {
        None => LeaderAction::TryBecomeLeader,
        Some(s) => if s.leader_id is None || lease_expired(s, now, leader_timeout_ms) {
            LeaderAction::TryBecomeLeader
        } else if s.leader_id->Some_0@ == server_id {
            LeaderAction::RenewLeadership
        } else {
            LeaderAction::StepDown
        },
    }
}

/// What server `server_id` does about the leadership at `now`.
pub fn leader_action(state: &Option<ClusterState>, server_id: &str, now: i64, leader_timeout_ms: u64) -> (r: LeaderAction)
    requires
        state matches Some(s) ==> i64::MIN <= now - s.last_heartbeat <= i64::MAX,
    ensures
        r == spec_leader_action(*state, server_id@, now, leader_timeout_ms),
{
    match state {
        None => LeaderAction::TryBecomeLeader,
        Some(s) => {
            let timeout: i64 = #[verifier::truncate] (leader_timeout_ms as i64);
            let expired = now - s.last_heartbeat > timeout;
            match &s.leader_id {
                None => LeaderAction::TryBecomeLeader,
                Some(leader) => {
                    if expired {
                        LeaderAction::TryBecomeLeader
                    } else if str_eq(leader.as_str(), server_id) {
                        LeaderAction::RenewLeadership
                    } else {
                        LeaderAction::StepDown
                    }
                },
            }
        },
    }
}

/// The term a server claims: one past the current term, or 1 when the
/// state could not be read.
pub fn next_leader_term(state: &Option<ClusterState>) -> (r: i64)
    requires
        state matches Some(s) ==> s.leader_term < i64::MAX,
    ensures
        r == (match state {
            Some(s) => s.leader_term + 1,
            None => 1,
        }),
{
    match state {
        Some(s) => s.leader_term + 1,
        None => 1,
    }
}

/// Whether the server leads after acting: exactly when its claim or its
/// renewal succeeded. Stepping down ends the leadership, and so does a
/// failed claim, since another server then holds the lease.
pub fn leadership_after(action: LeaderAction, succeeded: bool) -> (r: bool)
    ensures
        r == (match action {
            LeaderAction::StepDown => false,
            _ => succeeded,
        }),
{
    match action {
        LeaderAction::TryBecomeLeader => succeeded,
        LeaderAction::RenewLeadership => succeeded,
        LeaderAction::StepDown => false,
    }
}

/// While another server holds an unexpired lease, this server steps down.
pub proof fn lemma_live_foreign_leader_means_step_down(state: ClusterState, server_id: Seq<char>, now: i64, timeout: u64)
    requires
        state.leader_id matches Some(l) && l@ != server_id,
        !lease_expired(state, now, timeout),
    ensures
        spec_leader_action(Some(state), server_id, now, timeout) == LeaderAction::StepDown,
{
}

/// A leader whose lease is unexpired renews it rather than claiming anew.
pub proof fn lemma_live_leader_renews(state: ClusterState, server_id: Seq<char>, now: i64, timeout: u64)
    requires
        state.leader_id matches Some(l) && l@ == server_id,
        !lease_expired(state, now, timeout),
    ensures
        spec_leader_action(Some(state), server_id, now, timeout) == LeaderAction::RenewLeadership,
{
}

/// Without a live leader, every server claims the leadership.
pub proof fn lemma_no_live_leader_means_claim(state: Option<ClusterState>, server_id: Seq<char>, now: i64, timeout: u64)
    requires
        state matches Some(s) ==> (s.leader_id is None || lease_expired(s, now, timeout)),
    ensures
        spec_leader_action(state, server_id, now, timeout) == LeaderAction::TryBecomeLeader,
{
}

/// In any one cluster state, at most one server renews the leadership:
/// the one the state names.
pub proof fn lemma_single_renewer(state: Option<ClusterState>, a: Seq<char>, b: Seq<char>, now: i64, timeout: u64)
    requires
        spec_leader_action(state, a, now, timeout) == LeaderAction::RenewLeadership,
        spec_leader_action(state, b, now, timeout) == LeaderAction::RenewLeadership,
    ensures
        a == b,
        state matches Some(s) && s.leader_id matches Some(l) && l@ == a,
{
}

/// The lease runs out exactly when more than `leader_timeout_ms` has
/// passed since the leader's last renewal, whatever the timeout.
pub proof fn lemma_lease_rule(state: ClusterState, now: i64, leader_timeout_ms: u64)
    requires
        leader_timeout_ms <= i64::MAX,
    ensures
        lease_expired(state, now, leader_timeout_ms) <==> now - state.last_heartbeat > leader_timeout_ms,
{
}

/// While another server leads, this server claims the leadership exactly
/// when more than `leader_timeout_ms` has passed since that leader's last
/// renewal, and steps down otherwise.
pub proof fn lemma_foreign_leader_rule(state: ClusterState, server_id: Seq<char>, now: i64, leader_timeout_ms: u64)
    requires
        leader_timeout_ms <= i64::MAX,
        state.leader_id matches Some(l) && l@ != server_id,
    ensures
        spec_leader_action(Some(state), server_id, now, leader_timeout_ms) == (if now - state.last_heartbeat
            > leader_timeout_ms {
            LeaderAction::TryBecomeLeader
        } else {
            LeaderAction::StepDown
        }),
{
}

} // verus!
