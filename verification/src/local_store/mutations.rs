//! The mutation outbox: every local edit is recorded with a durable
//! mutation in the same transaction, and mutations of one skill are sent to
//! the server strictly in their local order.
use vstd::prelude::*;
use crate::local_store::{
    edit_fault, validate_edit, validate_non_empty, CommitSkillEdit, LocalMutation, LocalSkill,
    LocalStoreError, MutationOperation, MutationState, SkillSyncState,
};
use crate::text::{i64_text, trim_seq};

verus! {

/// The outbox row as stored, before its text columns are decoded.
#[derive(Debug, Clone)]
pub struct RawMutation {
    pub id: String,
    pub skill_id: String,
    pub local_sequence: i64,
    pub operation: String,
    pub base_revision: Option<i64>,
    pub payload_hash: String,
    pub state: String,
    pub retry_count: u32,
    pub next_attempt_at: Option<String>,
    pub last_attempt_at: Option<String>,
    pub server_error_code: Option<String>,
    pub server_error_details: Option<String>,
    pub acknowledged_remote_revision: Option<i64>,
    pub acknowledged_remote_id: Option<String>,
    pub last_error: Option<String>,
}

impl RawMutation {
    /// Decodes a stored row: a negative sequence, or an unknown operation or
    /// state text, is refused as corrupt persisted state.
    pub fn into_local(self) -> (r: Result<LocalMutation, LocalStoreError>)
        ensures
            r is Ok <==> self.local_sequence >= 0 && (exists|o: MutationOperation|
                crate::local_store::mutation_operation_text(o) == self.operation@) && (exists|
                s: MutationState,
            | crate::local_store::mutation_state_text(s) == self.state@),
            r matches Ok(m) ==> m.id == self.id && m.skill_id == self.skill_id && m.local_sequence
                == self.local_sequence && crate::local_store::mutation_operation_text(m.operation)
                == self.operation@ && m.base_revision == self.base_revision && m.payload_hash
                == self.payload_hash && crate::local_store::mutation_state_text(m.state)
                == self.state@ && m.retry_count == self.retry_count && m.next_attempt_at
                == self.next_attempt_at && m.last_attempt_at == self.last_attempt_at
                && m.server_error_code == self.server_error_code && m.server_error_details
                == self.server_error_details && m.acknowledged_remote_revision
                == self.acknowledged_remote_revision && m.acknowledged_remote_id
                == self.acknowledged_remote_id && m.last_error == self.last_error,
            r is Err ==> r matches Err(LocalStoreError::InvalidPersistedState(_)),
    {
        if self.local_sequence < 0 {
            let mut msg = String::from_str("invalid mutation local_sequence ");
            msg.append(i64_text(self.local_sequence).as_str());
            msg.append(" for ");
            msg.append(self.id.as_str());
            return Err(LocalStoreError::InvalidPersistedState(msg));
        }
        let operation = MutationOperation::from_db_str(self.operation.as_str())?;
        let state = MutationState::from_db_str(self.state.as_str())?;
        Ok(
            LocalMutation {
                id: self.id,
                skill_id: self.skill_id,
                local_sequence: self.local_sequence as u64,
                operation,
                base_revision: self.base_revision,
                payload_hash: self.payload_hash,
                state,
                retry_count: self.retry_count,
                next_attempt_at: self.next_attempt_at,
                last_attempt_at: self.last_attempt_at,
                server_error_code: self.server_error_code,
                server_error_details: self.server_error_details,
                acknowledged_remote_revision: self.acknowledged_remote_revision,
                acknowledged_remote_id: self.acknowledged_remote_id,
                last_error: self.last_error,
            },
        )
    }
}

/// A freshly queued mutation: pending, never attempted, no errors.
pub open spec fn is_fresh_mutation(
    m: LocalMutation,
    skill_id: Seq<char>,
    sequence: nat,
    operation: MutationOperation,
    base_revision: Option<i64>,
    payload_hash: Seq<char>,
) -> bool {
    &&& crate::ids::is_token_text(m.id@)
    &&& m.skill_id@ == skill_id
    &&& m.local_sequence == sequence
    &&& m.operation == operation
    &&& m.base_revision == base_revision
    &&& m.payload_hash@ == payload_hash
    &&& m.state == MutationState::Pending
    &&& m.retry_count == 0
    &&& m.next_attempt_at is None
    &&& m.last_attempt_at is None
    &&& m.server_error_code is None
    &&& m.server_error_details is None
    &&& m.acknowledged_remote_revision is None
    &&& m.acknowledged_remote_id is None
    &&& m.last_error is None
}

pub fn fresh_mutation(
    skill_id: &str,
    sequence: u64,
    operation: MutationOperation,
    base_revision: Option<i64>,
    payload_hash: &str,
) -> (m: LocalMutation)
    ensures
        is_fresh_mutation(m, skill_id@, sequence as nat, operation, base_revision, payload_hash@),
{
    LocalMutation {
        id: crate::ids::new_uuid_v4(),
        skill_id: skill_id.to_owned(),
        local_sequence: sequence,
        operation,
        base_revision,
        payload_hash: payload_hash.to_owned(),
        state: MutationState::Pending,
        retry_count: 0,
        next_attempt_at: None,
        last_attempt_at: None,
        server_error_code: None,
        server_error_details: None,
        acknowledged_remote_revision: None,
        acknowledged_remote_id: None,
        last_error: None,
    }
}

fn or_string(a: &Option<String>, b: Option<&String>) -> (r: Option<String>)
    ensures
        a is Some ==> r == *a,
        a is None ==> (match b {
            Some(s) => r == Some(*s),
            None => r is None,
        }),
{
    match a {
        Some(v) => Some(v.clone()),
        None => match b {
            Some(s) => Some(s.clone()),
            None => None,
        },
    }
}

/// The skill row after a local edit: the edit's fields, the remote id and
/// revision kept from the stored row when the edit has none, and `dirty`.
pub open spec fn edited_skill(edit: CommitSkillEdit, existing: Option<LocalSkill>, s: LocalSkill) -> bool {
    &&& s.id@ == edit.skill_id@
    &&& s.name@ == edit.name@
    &&& s.slug@ == edit.slug@
    &&& s.workspace_path@ == edit.workspace_path@
    &&& s.current_blob_hash@ == edit.blob_hash@
    &&& s.sync_state == SkillSyncState::Dirty
    &&& match existing {
        Some(e) => {
            &&& s.remote_id == (if edit.remote_id is Some {
                edit.remote_id
            } else {
                e.remote_id
            })
            &&& s.remote_revision == (if edit.base_revision is Some {
                edit.base_revision
            } else {
                e.remote_revision
            })
            &&& s.remote_blob_hash == e.remote_blob_hash
            &&& s.pinned == e.pinned
        },
        None => {
            &&& s.remote_id == edit.remote_id
            &&& s.remote_revision == edit.base_revision
            &&& s.remote_blob_hash is None
            &&& !s.pinned
        },
    }
}

/// Records a local edit together with its outbox mutation.
///
/// `existing` is the stored skill row, if any, and `last_sequence` the
/// highest local sequence among the skill's mutations (0 when none). The
/// edit must pass `validate_edit` and must not be a delete. The skill row
/// becomes dirty; the mutation is pending with the next local sequence and
/// the edit's snapshot as payload.
pub fn commit_skill_edit(edit: CommitSkillEdit, existing: Option<&LocalSkill>, last_sequence: u64) -> (r:
    Result<(LocalSkill, LocalMutation), LocalStoreError>)
    requires
        last_sequence < u64::MAX,
    ensures
        edit_fault(edit) matches Some(m) ==> r matches Err(LocalStoreError::InvalidInput(e)) && e@
            == m,
        edit_fault(edit) is None && edit.operation == MutationOperation::Delete ==> (r matches Err(
            LocalStoreError::InvalidInput(e),
        ) && e@ == "delete mutations must use queue_skill_delete"@),
        r is Ok <==> edit_fault(edit) is None && edit.operation != MutationOperation::Delete,
        r matches Ok((s, m)) ==> edited_skill(
            edit,
            match existing {
                Some(e) => Some(*e),
                None => None,
            },
            s,
        ) && is_fresh_mutation(
            m,
            edit.skill_id@,
            last_sequence as nat + 1,
            edit.operation,
            edit.base_revision,
            edit.blob_hash@,
        ),
{
    validate_edit(&edit)?;
    if edit.operation == MutationOperation::Delete {
        return Err(
            LocalStoreError::InvalidInput(
                String::from_str("delete mutations must use queue_skill_delete"),
            ),
        );
    }
    let remote_id = or_string(
        &edit.remote_id,
        match existing {
            Some(e) => match &e.remote_id {
                Some(v) => Some(v),
                None => None,
            },
            None => None,
        },
    );
    let remote_revision = match edit.base_revision {
        Some(r) => Some(r),
        None => match existing {
            Some(e) => e.remote_revision,
            None => None,
        },
    };
    let (remote_blob_hash, pinned) = match existing {
        Some(e) => (e.remote_blob_hash.clone(), e.pinned),
        None => (None, false),
    };
    let mutation = fresh_mutation(
        edit.skill_id.as_str(),
        last_sequence + 1,
        edit.operation,
        edit.base_revision,
        edit.blob_hash.as_str(),
    );
    let skill = LocalSkill {
        id: edit.skill_id,
        remote_id,
        name: edit.name,
        slug: edit.slug,
        workspace_path: edit.workspace_path,
        current_blob_hash: edit.blob_hash,
        remote_blob_hash,
        remote_revision,
        sync_state: SkillSyncState::Dirty,
        pinned,
    };
    Ok((skill, mutation))
}

/// Queues the deletion of a skill without removing its row: the row stays,
/// dirty, until the server acknowledges the delete.
pub fn queue_skill_delete(
    skill_id: &str,
    base_revision: Option<i64>,
    existing: Option<&LocalSkill>,
    last_sequence: u64,
) -> (r: Result<(LocalSkill, LocalMutation), LocalStoreError>)
    requires
        last_sequence < u64::MAX,
        existing matches Some(e) ==> e.id@ == skill_id@,
    ensures
        trim_seq(skill_id@).len() == 0 ==> r matches Err(LocalStoreError::InvalidInput(_)),
        trim_seq(skill_id@).len() > 0 && (base_revision matches Some(rev) && rev < 0) ==> r matches Err(
            LocalStoreError::InvalidInput(_),
        ),
        trim_seq(skill_id@).len() > 0 && !(base_revision matches Some(rev) && rev < 0)
            && existing is None ==> (r matches Err(LocalStoreError::SkillNotFound(id)) && id@
            == skill_id@),
        r is Ok <==> trim_seq(skill_id@).len() > 0 && !(base_revision matches Some(rev) && rev < 0)
            && existing is Some,
        r matches Ok((s, m)) ==> existing matches Some(e) && s == (LocalSkill {
            sync_state: SkillSyncState::Dirty,
            ..*e
        }) && is_fresh_mutation(
            m,
            skill_id@,
            last_sequence as nat + 1,
            MutationOperation::Delete,
            base_revision,
            e.current_blob_hash@,
        ),
{
    validate_non_empty("skill_id", skill_id)?;
    match base_revision {
        Some(rev) => {
            if rev < 0 {
                return Err(
                    LocalStoreError::InvalidInput(String::from_str("base_revision must not be negative")),
                );
            }
        },
        None => {},
    }
    let e = match existing {
        Some(e) => e,
        None => {
            return Err(LocalStoreError::SkillNotFound(skill_id.to_owned()));
        },
    };
    let mutation = fresh_mutation(
        skill_id,
        last_sequence + 1,
        MutationOperation::Delete,
        base_revision,
        e.current_blob_hash.as_str(),
    );
    let skill = LocalSkill {
        id: e.id.clone(),
        remote_id: e.remote_id.clone(),
        name: e.name.clone(),
        slug: e.slug.clone(),
        workspace_path: e.workspace_path.clone(),
        current_blob_hash: e.current_blob_hash.clone(),
        remote_blob_hash: e.remote_blob_hash.clone(),
        remote_revision: e.remote_revision,
        sync_state: SkillSyncState::Dirty,
        pinned: e.pinned,
    };
    Ok((skill, mutation))
}

// ---------------------------------------------------------------------
// Dispatch.
/// Waiting to be sent: pending or retryable.
pub open spec fn is_waiting(m: LocalMutation) -> bool {
    m.state == MutationState::Pending || m.state == MutationState::RetryableError
}

/// Some earlier mutation of the same skill is not yet acknowledged.
pub open spec fn has_unacked_predecessor(all: Seq<LocalMutation>, m: LocalMutation) -> bool {
    exists|j: int|
        0 <= j < all.len() && (#[trigger] all[j]).skill_id@ == m.skill_id@ && all[j].local_sequence
            < m.local_sequence && all[j].state != MutationState::Acked
}

/// A mutation may be sent: it is waiting, its retry time has come, and every
/// earlier mutation of its skill is acknowledged.
pub open spec fn is_dispatchable(all: Seq<LocalMutation>, due: Seq<bool>, i: int) -> bool {
    &&& is_waiting(all[i])
    &&& due[i]
    &&& !has_unacked_predecessor(all, all[i])
}

/// The indices, in order, of the dispatchable mutations among the first `n`.
pub open spec fn dispatchable_prefix(all: Seq<LocalMutation>, due: Seq<bool>, n: int) -> Seq<int>
    decreases n,
{
    if n <= 0 {
        seq![]
    } else if is_dispatchable(all, due, n - 1) {
        dispatchable_prefix(all, due, n - 1).push(n - 1)
    } else {
        dispatchable_prefix(all, due, n - 1)
    }
}

fn has_unacked_predecessor_exec(all: &[LocalMutation], m: &LocalMutation) -> (b: bool)
    ensures
        b == has_unacked_predecessor(all@, *m),
{
    let mut j: usize = 0;
    while j < all.len()
        invariant
            j <= all@.len(),
            forall|k: int|
                0 <= k < j ==> !((#[trigger] all@[k]).skill_id@ == m.skill_id@
                    && all@[k].local_sequence < m.local_sequence && all@[k].state
                    != MutationState::Acked),
        decreases all@.len() - j,
    {
        let o = &all[j];
        if crate::text::str_eq(o.skill_id.as_str(), m.skill_id.as_str()) && o.local_sequence
            < m.local_sequence && o.state != MutationState::Acked {
            return true;
        }
        j = j + 1;
    }
    false
}

/// Selects the mutations that may be sent now, in outbox order, at most
/// `limit` of them. `all` is the whole outbox in the order mutations were
/// created, and `due[i]` tells whether mutation `i`'s retry time has come.
pub fn list_dispatchable_mutations(all: &[LocalMutation], due: &[bool], limit: u32) -> (r: Vec<
    LocalMutation,
>)
    requires
        due@.len() == all@.len(),
    ensures
        r@.len() == if dispatchable_prefix(all@, due@, all@.len() as int).len() < limit {
            dispatchable_prefix(all@, due@, all@.len() as int).len() as int
        } else {
            limit as int
        },
        forall|k: int|
            0 <= k < r@.len() ==> #[trigger] r@[k] == all@[dispatchable_prefix(
                all@,
                due@,
                all@.len() as int,
            )[k]],
{
    let mut out: Vec<LocalMutation> = Vec::new();
    let mut i: usize = 0;
    let n = all.len();
    while i < n && out.len() < limit as usize
        invariant
            n == all@.len(),
            due@.len() == n,
            i <= n,
            out@.len() <= limit,
            out@.len() == if dispatchable_prefix(all@, due@, i as int).len() < limit {
                dispatchable_prefix(all@, due@, i as int).len() as int
            } else {
                limit as int
            },
            forall|k: int|
                0 <= k < out@.len() ==> #[trigger] out@[k] == all@[dispatchable_prefix(
                    all@,
                    due@,
                    i as int,
                )[k]],
            out@.len() < limit ==> out@.len() == dispatchable_prefix(all@, due@, i as int).len(),
        decreases n - i,
    {
        let m = &all[i];
        let ok = (m.state == MutationState::Pending || m.state == MutationState::RetryableError)
            && due[i] && !has_unacked_predecessor_exec(all, m);
        proof {
            lemma_dispatchable_prefix_len(all@, due@, i as int);
        }
        if ok {
            out.push(m.clone_row());
        }
        i = i + 1;
    }
    proof {
        if i < n {
            lemma_dispatchable_prefix_grows(all@, due@, i as int, n as int);
        }
    }
    out
}

proof fn lemma_dispatchable_prefix_len(all: Seq<LocalMutation>, due: Seq<bool>, n: int)
    ensures
        dispatchable_prefix(all, due, n).len() <= if n < 0 {
            0
        } else {
            n
        },
        forall|k: int|
            0 <= k < dispatchable_prefix(all, due, n).len() ==> 0 <= #[trigger] dispatchable_prefix(
                all,
                due,
                n,
            )[k] < n,
    decreases n,
{
    if n > 0 {
        lemma_dispatchable_prefix_len(all, due, n - 1);
    }
}

proof fn lemma_dispatchable_prefix_grows(all: Seq<LocalMutation>, due: Seq<bool>, i: int, n: int)
    requires
        0 <= i <= n,
    ensures
        dispatchable_prefix(all, due, i).len() <= dispatchable_prefix(all, due, n).len(),
        forall|k: int|
            0 <= k < dispatchable_prefix(all, due, i).len() ==> #[trigger] dispatchable_prefix(
                all,
                due,
                n,
            )[k] == dispatchable_prefix(all, due, i)[k],
    decreases n - i,
{
    if i < n {
        lemma_dispatchable_prefix_grows(all, due, i, n - 1);
    }
}

/// No mutation is ever offered for dispatch while an earlier mutation of
/// the same skill is unacknowledged.
pub proof fn lemma_dispatch_respects_order(all: Seq<LocalMutation>, due: Seq<bool>, n: int, k: int)
    requires
        0 <= k < dispatchable_prefix(all, due, n).len(),
    ensures
        !has_unacked_predecessor(all, all[dispatchable_prefix(all, due, n)[k]]),
        is_waiting(all[dispatchable_prefix(all, due, n)[k]]),
    decreases n,
{
    if n > 0 {
        if k < dispatchable_prefix(all, due, n - 1).len() {
            lemma_dispatch_respects_order(all, due, n - 1, k);
        }
    }
}

impl LocalMutation {
    /// A field-by-field copy.
    pub fn clone_row(&self) -> (c: LocalMutation)
        ensures
            c == *self,
    {
        LocalMutation {
            id: self.id.clone(),
            skill_id: self.skill_id.clone(),
            local_sequence: self.local_sequence,
            operation: self.operation,
            base_revision: self.base_revision,
            payload_hash: self.payload_hash.clone(),
            state: self.state,
            retry_count: self.retry_count,
            next_attempt_at: self.next_attempt_at.clone(),
            last_attempt_at: self.last_attempt_at.clone(),
            server_error_code: self.server_error_code.clone(),
            server_error_details: self.server_error_details.clone(),
            acknowledged_remote_revision: self.acknowledged_remote_revision,
            acknowledged_remote_id: self.acknowledged_remote_id.clone(),
            last_error: self.last_error.clone(),
        }
    }
}

/// Claims one dispatchable mutation: it goes in flight with one more
/// attempt counted, `now` as its last attempt and no retry time. A mutation
/// that is no longer waiting has been claimed elsewhere.
pub fn claim_mutation(m: &LocalMutation, now: &str) -> (r: Result<LocalMutation, LocalStoreError>)
    requires
        m.retry_count < u32::MAX,
    ensures
        r is Ok <==> is_waiting(*m),
        r matches Ok(c) ==> c == (LocalMutation {
            state: MutationState::InFlight,
            retry_count: (m.retry_count + 1) as u32,
            last_attempt_at: Some(c.last_attempt_at->0),
            next_attempt_at: None,
            ..*m
        }) && (c.last_attempt_at matches Some(t) && t@ == now@),
        r matches Err(e) ==> e matches LocalStoreError::OutboxClaimLost(id) && id@ == m.id@,
{
    if !(m.state == MutationState::Pending || m.state == MutationState::RetryableError) {
        return Err(LocalStoreError::OutboxClaimLost(m.id.clone()));
    }
    let mut c = m.clone_row();
    c.state = MutationState::InFlight;
    c.retry_count = m.retry_count + 1;
    c.last_attempt_at = Some(now.to_owned());
    c.next_attempt_at = None;
    Ok(c)
}

/// The note left on mutations requeued after a restart.
pub open spec fn recovered_note() -> Seq<char> {
    "recovered after client restart with unknown remote outcome"@
}

/// After a restart an in-flight request has an unknown remote outcome: the
/// same mutation is requeued as retryable with no wait (the server is
/// idempotent on the mutation id). Other mutations are unchanged.
pub fn recover_in_flight_mutation(m: &LocalMutation) -> (r: Option<LocalMutation>)
    ensures
        r is Some <==> m.state == MutationState::InFlight,
        r matches Some(c) ==> c == (LocalMutation {
            state: MutationState::RetryableError,
            next_attempt_at: None,
            last_error: Some(c.last_error->0),
            ..*m
        }) && (c.last_error matches Some(e) && e@ == recovered_note()),
{
    if m.state != MutationState::InFlight {
        return None;
    }
    let mut c = m.clone_row();
    c.state = MutationState::RetryableError;
    c.next_attempt_at = None;
    c.last_error = Some(String::from_str("recovered after client restart with unknown remote outcome"));
    Some(c)
}

} // verus!
