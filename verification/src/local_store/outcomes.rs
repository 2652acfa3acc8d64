//! Applying the server's answer to one dispatched mutation.
//!
//! - `acked`: the mutation is acknowledged with its remote id and revision;
//!   the skill becomes `synced` only when no other mutation of it is still
//!   unacknowledged;
//! - `conflict`: mutation and skill in `conflict`;
//! - `permission_denied`: mutation `permission_denied`, skill
//!   `access_revoked`;
//! - `validation_error`: mutation `permanent_error` (never retried), skill
//!   `sync_error`;
//! - transport failure: `retryable_error`, retried after a bounded
//!   exponential backoff.
//! Every transition keeps the skill's local snapshot.
use vstd::prelude::*;
use crate::local_store::{LocalStoreError, MutationState, SkillSyncState};
use crate::text::str_eq;

verus! {

pub const BACKOFF_BASE_SECS: u64 = 2;
pub const BACKOFF_MAX_SECONDS: u64 = 64;
pub const BACKOFF_MAX_EXPONENT: u32 = 6;

/// A definitive protocol outcome for one claimed mutation.
#[derive(Debug, Clone)]
pub struct MutationOutcome {
    pub mutation_id: String,
    pub status: String,
    pub remote_skill_id: Option<String>,
    pub revision: Option<i64>,
    pub conflict_head_revision: Option<i64>,
    pub conflict_package_manifest_hash: Option<String>,
    pub error_code: Option<String>,
    pub message: Option<String>,
}

impl MutationOutcome {
    /// The outcome recorded when the request never got a definitive answer.
    pub fn transport_error(mutation_id: &str, error_code: &str, message: &str) -> (o:
        MutationOutcome)
        ensures
            o.mutation_id@ == mutation_id@,
            o.status@ == "transport_error"@,
            o.remote_skill_id is None,
            o.revision is None,
            o.conflict_head_revision is None,
            o.conflict_package_manifest_hash is None,
            o.error_code matches Some(c) && c@ == error_code@,
            o.message matches Some(m) && m@ == message@,
    {
        MutationOutcome {
            mutation_id: mutation_id.to_owned(),
            status: String::from_str("transport_error"),
            remote_skill_id: None,
            revision: None,
            conflict_head_revision: None,
            conflict_package_manifest_hash: None,
            error_code: Some(error_code.to_owned()),
            message: Some(message.to_owned()),
        }
    }
}

/// Result of durably applying one outcome.
#[derive(Debug, Clone, PartialEq, Eq)]
pub struct OutcomeApplied {
    pub mutation_state: MutationState,
    pub skill_state: Option<SkillSyncState>,
}

/// The stored facts about the mutation an outcome answers.
#[derive(Debug, Clone)]
pub struct OutcomeTarget {
    pub skill_id: String,
    pub state: String,
    pub retry_count: u32,
}

/// What a transaction writes for one outcome.
#[derive(Debug, Clone)]
pub enum OutcomeWrite {
    /// The mutation was already acknowledged: nothing changes.
    Unchanged,
    /// Acknowledge at `revision`; record `remote_skill_id` when given;
    /// clear the retry schedule and errors; the skill takes the revision
    /// (and the remote id when given) and the state `skill_state`.
    Acked { revision: i64, remote_skill_id: Option<String>, skill_state: Option<SkillSyncState> },
    /// Stop at `mutation_state` with the outcome's error, clear the retry
    /// schedule, move the skill to `skill_state`; a conflict also records
    /// the remote package the server reported (`Some`), beside the local
    /// snapshot, which stays.
    Definitive {
        mutation_state: MutationState,
        skill_state: SkillSyncState,
        remote_package_manifest_hash: Option<String>,
    },
    /// Mark the mutation retryable, count the attempt, and schedule the next
    /// one `backoff_seconds` from now.
    Retry { backoff_seconds: u64 },
}

pub open spec fn pow2(e: nat) -> nat
    decreases e,
{
    if e == 0 {
        1
    } else {
        2 * pow2((e - 1) as nat)
    }
}

/// `2^min(retry, 6)` seconds, never more than 64.
pub open spec fn spec_backoff_seconds(retry_count: u32) -> nat {
    let e: nat = if retry_count > BACKOFF_MAX_EXPONENT {
        BACKOFF_MAX_EXPONENT as nat
    } else {
        retry_count as nat
    };
    if pow2(e) > BACKOFF_MAX_SECONDS {
        BACKOFF_MAX_SECONDS as nat
    } else {
        pow2(e)
    }
}

/// Bounded exponential backoff: 1, 2, 4, 8, 16, 32, then 64 seconds.
pub fn backoff_seconds(retry_count: u32) -> (s: u64)
    ensures
        s == spec_backoff_seconds(retry_count),
        1 <= s <= BACKOFF_MAX_SECONDS,
{
    let exponent = if retry_count > BACKOFF_MAX_EXPONENT {
        BACKOFF_MAX_EXPONENT
    } else {
        retry_count
    };
    let mut value: u64 = 1;
    let mut i: u32 = 0;
    while i < exponent
        invariant
            i <= exponent <= BACKOFF_MAX_EXPONENT,
            value == pow2(i as nat),
            value <= 64,
        decreases exponent - i,
    {
        assert(pow2((i + 1) as nat) == 2 * pow2(i as nat));
        value = value * BACKOFF_BASE_SECS;
        i = i + 1;
        assert(i <= 6 ==> pow2(i as nat) <= 64) by {
            reveal_with_fuel(pow2, 7);
        }
    }
    proof {
        reveal_with_fuel(pow2, 7);
    }
    if value > BACKOFF_MAX_SECONDS {
        BACKOFF_MAX_SECONDS
    } else {
        value
    }
}

/// The backoff never exceeds its cap, and never shrinks as retries grow.
pub proof fn lemma_backoff_bounded_and_monotone(a: u32, b: u32)
    ensures
        1 <= spec_backoff_seconds(a) <= BACKOFF_MAX_SECONDS,
        a <= b ==> spec_backoff_seconds(a) <= spec_backoff_seconds(b),
{
    let ea: nat = if a > 6 { 6 } else { a as nat };
    let eb: nat = if b > 6 { 6 } else { b as nat };
    lemma_pow2_pos(ea);
    if a <= b {
        lemma_pow2_monotone(ea, eb);
    }
}

proof fn lemma_pow2_pos(x: nat)
    ensures
        pow2(x) >= 1,
    decreases x,
{
    if x > 0 {
        lemma_pow2_pos((x - 1) as nat);
    }
}

proof fn lemma_pow2_monotone(x: nat, y: nat)
    requires
        x <= y,
    ensures
        pow2(x) <= pow2(y),
    decreases y,
{
    if x < y {
        lemma_pow2_monotone(x, (y - 1) as nat);
        lemma_pow2_pos((y - 1) as nat);
    }
}

/// The persisted mutation state an outcome status leads to.
pub open spec fn status_mutation_state(status: Seq<char>) -> MutationState {
    if status == "acked"@ {
        MutationState::Acked
    } else if status == "conflict"@ {
        MutationState::Conflict
    } else if status == "permission_denied"@ {
        MutationState::PermissionDenied
    } else if status == "validation_error"@ {
        MutationState::PermanentError
    } else {
        MutationState::RetryableError
    }
}

/// The persisted mutation state text for an outcome status.
pub fn mutation_state_str(status: &str) -> (s: String)
    ensures
        s@ == crate::local_store::mutation_state_text(status_mutation_state(status@)),
{
    if str_eq(status, "acked") {
        String::from_str("acked")
    } else if str_eq(status, "conflict") {
        String::from_str("conflict")
    } else if str_eq(status, "permission_denied") {
        String::from_str("permission_denied")
    } else if str_eq(status, "validation_error") {
        String::from_str("permanent_error")
    } else {
        String::from_str("retryable_error")
    }
}

/// The skill's state after one of its mutations is acknowledged: a skill
/// that was waiting on sync becomes `synced` once no other mutation of it
/// remains unacknowledged; any other state is left to whatever governs it.
pub open spec fn spec_state_after_ack(state: SkillSyncState, other_unacked: bool) -> SkillSyncState {
    if !other_unacked && (state == SkillSyncState::Dirty || state == SkillSyncState::Uploading
        || state == SkillSyncState::SyncError) {
        SkillSyncState::Synced
    } else {
        state
    }
}

pub open spec fn opt_state_after_ack(s: Option<SkillSyncState>, other_unacked: bool) -> Option<
    SkillSyncState,
> {
    match s {
        Some(st) => Some(spec_state_after_ack(st, other_unacked)),
        None => None,
    }
}

pub fn state_after_ack(state: SkillSyncState, other_unacked: bool) -> (r: SkillSyncState)
    ensures
        r == spec_state_after_ack(state, other_unacked),
{
    if !other_unacked && (state == SkillSyncState::Dirty || state == SkillSyncState::Uploading
        || state == SkillSyncState::SyncError) {
        SkillSyncState::Synced
    } else {
        state
    }
}

/// The write and the reported states for `outcome`, as `apply_mutation_outcome`
/// decides them.
pub open spec fn outcome_decision(
    target: Option<OutcomeTarget>,
    skill_state: Option<SkillSyncState>,
    other_unacked: bool,
    outcome: MutationOutcome,
    r: Result<(OutcomeWrite, OutcomeApplied), LocalStoreError>,
) -> bool {
    match target {
        None => r matches Err(LocalStoreError::OutboxClaimLost(id)) && id@ == outcome.mutation_id@,
        Some(t) => if t.state@ == "acked"@ {
            r matches Ok((w, a)) && w is Unchanged && a.mutation_state == MutationState::Acked
                && a.skill_state == skill_state
        } else if outcome.status@ == "acked"@ {
            match outcome.revision {
                None => r matches Err(LocalStoreError::InvalidPersistedState(_)),
                Some(rev) => r matches Ok((w, a)) && w matches OutcomeWrite::Acked {
                    revision,
                    remote_skill_id,
                    skill_state: s,
                } && revision == rev && remote_skill_id == outcome.remote_skill_id && s
                    == opt_state_after_ack(skill_state, other_unacked)
                    && a.mutation_state == MutationState::Acked && a.skill_state == s,
            }
        } else if outcome.status@ == "conflict"@ || outcome.status@ == "permission_denied"@
            || outcome.status@ == "validation_error"@ {
            let ms = status_mutation_state(outcome.status@);
            let ss = if outcome.status@ == "conflict"@ {
                SkillSyncState::Conflict
            } else if outcome.status@ == "permission_denied"@ {
                SkillSyncState::AccessRevoked
            } else {
                SkillSyncState::SyncError
            };
            r matches Ok((w, a)) && w == (OutcomeWrite::Definitive {
                mutation_state: ms,
                skill_state: ss,
                remote_package_manifest_hash: if outcome.status@ == "conflict"@ {
                    outcome.conflict_package_manifest_hash
                } else {
                    None
                },
            }) && a.mutation_state == ms && a.skill_state == (if skill_state is Some {
                Some(ss)
            } else {
                None
            })
        } else if outcome.status@ == "transport_error"@ {
            r matches Ok((w, a)) && w == (OutcomeWrite::Retry {
                backoff_seconds: spec_backoff_seconds(t.retry_count) as u64,
            }) && a.mutation_state == MutationState::RetryableError && a.skill_state == skill_state
        } else {
            r matches Err(LocalStoreError::InvalidPersistedState(_))
        },
    }
}

/// Decides how one protocol outcome is persisted.
///
/// `target` is the stored mutation the outcome answers (absent when the
/// outbox no longer holds it), `skill_state` the state of its skill, and
/// `other_unacked` whether another mutation of that skill is still
/// unacknowledged. Replaying an outcome for an acknowledged mutation
/// changes nothing.
pub fn apply_mutation_outcome(
    target: Option<&OutcomeTarget>,
    skill_state: Option<SkillSyncState>,
    other_unacked: bool,
    outcome: &MutationOutcome,
) -> (r: Result<(OutcomeWrite, OutcomeApplied), LocalStoreError>)
    ensures
        outcome_decision(
            match target {
                Some(t) => Some(*t),
                None => None,
            },
            skill_state,
            other_unacked,
            *outcome,
            r,
        ),
        definitive_outcome_written(
            match target {
                Some(t) => Some(*t),
                None => None,
            },
            skill_state,
            *outcome,
            r,
        ),
{
    proof {
        lemma_status_texts_distinct();
    }
    let t = match target {
        Some(t) => t,
        None => {
            return Err(LocalStoreError::OutboxClaimLost(outcome.mutation_id.clone()));
        },
    };
    if str_eq(t.state.as_str(), "acked") {
        return Ok(
            (
                OutcomeWrite::Unchanged,
                OutcomeApplied { mutation_state: MutationState::Acked, skill_state },
            ),
        );
    }
    let status = outcome.status.as_str();
    if str_eq(status, "acked") {
        let revision = match outcome.revision {
            Some(rev) => rev,
            None => {
                let mut msg = String::from_str("acked outcome for ");
                msg.append(outcome.mutation_id.as_str());
                msg.append(" has no revision");
                return Err(LocalStoreError::InvalidPersistedState(msg));
            },
        };
        let new_state = match skill_state {
            Some(st) => Some(state_after_ack(st, other_unacked)),
            None => None,
        };
        return Ok(
            (
                OutcomeWrite::Acked {
                    revision,
                    remote_skill_id: outcome.remote_skill_id.clone(),
                    skill_state: new_state,
                },
                OutcomeApplied { mutation_state: MutationState::Acked, skill_state: new_state },
            ),
        );
    }
    let definitive = if str_eq(status, "conflict") {
        Some((MutationState::Conflict, SkillSyncState::Conflict))
    } else if str_eq(status, "permission_denied") {
        Some((MutationState::PermissionDenied, SkillSyncState::AccessRevoked))
    } else if str_eq(status, "validation_error") {
        Some((MutationState::PermanentError, SkillSyncState::SyncError))
    } else {
        None
    };
    match definitive {
        Some((ms, ss)) => {
            let reported = match skill_state {
                Some(_) => Some(ss),
                None => None,
            };
            let remote_package_manifest_hash = if ms == MutationState::Conflict {
                outcome.conflict_package_manifest_hash.clone()
            } else {
                None
            };
            return Ok(
                (
                    OutcomeWrite::Definitive {
                        mutation_state: ms,
                        skill_state: ss,
                        remote_package_manifest_hash,
                    },
                    OutcomeApplied { mutation_state: ms, skill_state: reported },
                ),
            );
        },
        None => {},
    }
    if str_eq(status, "transport_error") {
        let seconds = backoff_seconds(t.retry_count);
        return Ok(
            (
                OutcomeWrite::Retry { backoff_seconds: seconds },
                OutcomeApplied { mutation_state: MutationState::RetryableError, skill_state },
            ),
        );
    }
    let mut msg = String::from_str("unknown mutation outcome status '");
    msg.append(status);
    msg.append("' for ");
    msg.append(outcome.mutation_id.as_str());
    Err(LocalStoreError::InvalidPersistedState(msg))
}

/// A definitive answer for an unacknowledged mutation ends it and moves
/// its skill, stated directly by status: a validation error makes the
/// mutation a permanent error and the skill `sync_error`; a conflict makes
/// both `conflict`; a permission refusal makes the mutation
/// `permission_denied` and the skill `access_revoked`. The reported skill
/// state is the new one when the skill exists. A transport failure only
/// schedules a retry and leaves the skill as it is.
pub open spec fn definitive_outcome_written(
    target: Option<OutcomeTarget>,
    skill_state: Option<SkillSyncState>,
    outcome: MutationOutcome,
    r: Result<(OutcomeWrite, OutcomeApplied), LocalStoreError>,
) -> bool {
    target matches Some(t) && t.state@ != "acked"@ ==> {
        &&& outcome.status@ == "validation_error"@ ==> (r matches Ok((w, a)) && w matches OutcomeWrite::Definitive {
            mutation_state: ms,
            skill_state: ws,
            ..
        } && ms == MutationState::PermanentError && ws == SkillSyncState::SyncError
            && a.mutation_state == MutationState::PermanentError && (skill_state is Some
            ==> a.skill_state == Some(SkillSyncState::SyncError)))
        &&& outcome.status@ == "conflict"@ ==> (r matches Ok((w, a)) && w matches OutcomeWrite::Definitive {
            mutation_state: ms,
            skill_state: ws,
            ..
        } && ms == MutationState::Conflict && ws == SkillSyncState::Conflict && (skill_state is Some
            ==> a.skill_state == Some(SkillSyncState::Conflict)))
        &&& outcome.status@ == "permission_denied"@ ==> (r matches Ok((w, a)) && w matches OutcomeWrite::Definitive {
            mutation_state: ms,
            skill_state: ws,
            ..
        } && ms == MutationState::PermissionDenied && ws == SkillSyncState::AccessRevoked && (
        skill_state is Some ==> a.skill_state == Some(SkillSyncState::AccessRevoked)))
        &&& outcome.status@ == "transport_error"@ ==> (r matches Ok((w, a)) && w is Retry
            && a.mutation_state == MutationState::RetryableError && a.skill_state == skill_state)
    }
}

/// Whatever the outcome decision, a definitive answer to a mutation still
/// waiting moves its skill out of the waiting states: a validation error
/// leaves the skill in `sync_error` (its change will never be retried), a
/// conflict in `conflict`, a refusal in `access_revoked`.
pub proof fn lemma_definitive_outcomes_move_the_skill(
    t: OutcomeTarget,
    skill_state: Option<SkillSyncState>,
    other_unacked: bool,
    outcome: MutationOutcome,
    r: Result<(OutcomeWrite, OutcomeApplied), LocalStoreError>,
)
    requires
        t.state@ != "acked"@,
        outcome_decision(Some(t), skill_state, other_unacked, outcome, r),
    ensures
        definitive_outcome_written(Some(t), skill_state, outcome, r),
        outcome.status@ == "validation_error"@ && skill_state is Some ==> (r matches Ok((_, a))
            && a.skill_state == Some(SkillSyncState::SyncError) && a.skill_state != Some(
            SkillSyncState::Dirty,
        )),
{
    lemma_status_texts_distinct();
}

/// The outcome statuses are distinct texts.
proof fn lemma_status_texts_distinct()
    ensures
        "acked"@ != "conflict"@,
        "acked"@ != "permission_denied"@,
        "acked"@ != "validation_error"@,
        "conflict"@ != "permission_denied"@,
        "conflict"@ != "validation_error"@,
        "permission_denied"@ != "validation_error"@,
        "acked"@ != "transport_error"@,
        "conflict"@ != "transport_error"@,
        "permission_denied"@ != "transport_error"@,
        "validation_error"@ != "transport_error"@,
{
    reveal_strlit("acked");
    reveal_strlit("validation_error");
    reveal_strlit("conflict");
    reveal_strlit("permission_denied");
    reveal_strlit("transport_error");
    assert("transport_error"@.len() == 15);
    assert("acked"@.len() == 5);
    assert("conflict"@.len() == 8);
    assert("permission_denied"@.len() == 17);
    assert("validation_error"@.len() == 16);
}

/// Replaying any outcome for a mutation that is already acknowledged
/// writes nothing and reports it acknowledged, with the skill untouched.
pub proof fn lemma_acked_replay_is_idempotent(
    t: OutcomeTarget,
    skill_state: Option<SkillSyncState>,
    other_unacked: bool,
    outcome: MutationOutcome,
    r: Result<(OutcomeWrite, OutcomeApplied), LocalStoreError>,
)
    requires
        t.state@ == "acked"@,
        outcome_decision(Some(t), skill_state, other_unacked, outcome, r),
    ensures
        r matches Ok((w, a)) && w is Unchanged && a.mutation_state == MutationState::Acked
            && a.skill_state == skill_state,
{
}

/// An acknowledgement makes the skill `synced` only when nothing else of it
/// is pending, and never changes a skill in conflict, revoked, corrupted or
/// remote-only state.
pub proof fn lemma_ack_syncs_only_settled_skills(state: SkillSyncState, other_unacked: bool)
    ensures
        spec_state_after_ack(state, other_unacked) == SkillSyncState::Synced ==> (state
            == SkillSyncState::Synced || !other_unacked),
        other_unacked ==> spec_state_after_ack(state, other_unacked) == state,
        (state == SkillSyncState::Conflict || state == SkillSyncState::AccessRevoked || state
            == SkillSyncState::Corrupted || state == SkillSyncState::RemoteOnly)
            ==> spec_state_after_ack(state, other_unacked) == state,
{
}

} // verus!
