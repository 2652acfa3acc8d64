//! Conflict state and its explicit resolution.
//!
//! A conflicted skill keeps everything the user needs to choose: the local
//! snapshot (the skill's current hash), the conflicted mutation rows
//! (never deleted by the worker), the remote head revision, and the remote
//! package hash, kept apart from the local snapshot until resolution.
//!
//! Two resolutions exist, each only after explicit confirmation. Keep
//! local re-queues the local snapshot as a new update against the latest
//! known remote head. Keep remote drops the local pending chain and adopts
//! the remote head. Either way the conflicted mutations are retired as
//! acknowledged, so that the skill's chain of mutations unblocks.
use vstd::prelude::*;
use crate::local_store::mutations::{fresh_mutation, is_fresh_mutation};
use crate::local_store::{
    skill_sync_state_text, LocalMutation, LocalSkill, LocalStoreError, MutationOperation,
    MutationState, SkillSyncState,
};
use crate::text::str_eq;

verus! {

/// One resolvable conflict: the local skill and the conflicted mutation
/// at the head of its chain.
#[derive(Debug, Clone, PartialEq, Eq)]
pub struct ConflictRecord {
    pub skill_id: String,
    pub local_name: String,
    pub local_slug: String,
    pub local_snapshot_hash: String,
    pub local_base_revision: Option<i64>,
    /// The remote head revision last observed; `None` when unknown.
    pub remote_head_revision: Option<i64>,
    /// The remote package hash, when known.
    pub remote_package_manifest_hash: Option<String>,
    pub mutation_id: String,
    pub mutation_operation: MutationOperation,
}

/// What a resolution did.
#[derive(Debug, Clone, PartialEq, Eq)]
pub struct ResolutionApplied {
    /// The update queued by keep-local.
    pub new_mutation_id: Option<String>,
    pub skill_state: SkillSyncState,
}

// ---------------------------------------------------------------------
// Listing conflicts.
/// `m` is a conflicted mutation of the skill `skill_id`.
pub open spec fn is_conflict_of(m: LocalMutation, skill_id: Seq<char>) -> bool {
    m.skill_id@ == skill_id && m.state == MutationState::Conflict
}

/// The index of the conflicted mutation of `skill_id` with the lowest
/// local sequence (the first such one on a tie).
pub open spec fn chain_head(muts: Seq<LocalMutation>, skill_id: Seq<char>) -> Option<int>
    decreases muts.len(),
{
    if muts.len() == 0 {
        None
    } else {
        let b = chain_head(muts.drop_last(), skill_id);
        let k = muts.len() - 1;
        if is_conflict_of(muts[k], skill_id) && match b {
            None => true,
            Some(j) => muts[k].local_sequence < muts[j].local_sequence,
        } {
            Some(k)
        } else {
            b
        }
    }
}

/// The record of a conflicted skill and the head of its conflicted chain.
pub open spec fn conflict_record(s: LocalSkill, m: LocalMutation) -> ConflictRecord {
    ConflictRecord {
        skill_id: s.id,
        local_name: s.name,
        local_slug: s.slug,
        local_snapshot_hash: s.current_blob_hash,
        local_base_revision: m.base_revision,
        remote_head_revision: s.remote_revision,
        remote_package_manifest_hash: s.remote_blob_hash,
        mutation_id: m.id,
        mutation_operation: m.operation,
    }
}

/// One record per conflicted skill that has a conflicted mutation, in the
/// order of `skills`.
pub open spec fn conflict_records(skills: Seq<LocalSkill>, muts: Seq<LocalMutation>) -> Seq<
    ConflictRecord,
>
    decreases skills.len(),
{
    if skills.len() == 0 {
        seq![]
    } else {
        let rest = conflict_records(skills.drop_last(), muts);
        let s = skills.last();
        if s.sync_state == SkillSyncState::Conflict {
            match chain_head(muts, s.id@) {
                Some(j) => rest.push(conflict_record(s, muts[j])),
                None => rest,
            }
        } else {
            rest
        }
    }
}

/// Finds the head of a skill's conflicted chain.
pub fn find_chain_head(muts: &Vec<LocalMutation>, skill_id: &str) -> (r: Option<usize>)
    ensures
        match chain_head(muts@, skill_id@) {
            Some(j) => r matches Some(b) && b == j,
            None => r is None,
        },
        r matches Some(j) ==> j < muts@.len(),
{
    let mut best: Option<usize> = None;
    let mut i: usize = 0;
    while i < muts.len()
        invariant
            i <= muts@.len(),
            match chain_head(muts@.take(i as int), skill_id@) {
                Some(j) => best matches Some(b) && b == j,
                None => best is None,
            },
            best matches Some(j) ==> j < i,
        decreases muts@.len() - i,
    {
        let ghost pre = muts@.take(i + 1);
        assert(pre.drop_last() =~= muts@.take(i as int));
        proof {
            lemma_chain_head_bounds(muts@.take(i as int), skill_id@);
        }
        assert(pre[i as int] == muts@[i as int]);
        let m = &muts[i];
        if m.state == MutationState::Conflict && str_eq(m.skill_id.as_str(), skill_id) {
            let better = match best {
                None => true,
                Some(j) => {
                    assert(pre[j as int] == muts@[j as int]);
                    m.local_sequence < muts[j].local_sequence
                },
            };
            if better {
                best = Some(i);
            }
        }
        i = i + 1;
    }
    assert(muts@.take(muts@.len() as int) =~= muts@);
    best
}

proof fn lemma_chain_head_bounds(muts: Seq<LocalMutation>, skill_id: Seq<char>)
    ensures
        chain_head(muts, skill_id) matches Some(j) ==> 0 <= j < muts.len() && is_conflict_of(
            muts[j],
            skill_id,
        ),
    decreases muts.len(),
{
    if muts.len() > 0 {
        lemma_chain_head_bounds(muts.drop_last(), skill_id);
    }
}

fn copy_string(s: &String) -> (r: String)
    ensures
        r == *s,
{
    s.clone()
}

fn copy_opt(s: &Option<String>) -> (r: Option<String>)
    ensures
        r == *s,
{
    match s {
        Some(v) => Some(v.clone()),
        None => None,
    }
}

/// Lists every conflicted skill with the head of its conflicted chain,
/// the mutation the user is choosing about. Skills come in the order
/// given; a conflicted skill without a conflicted mutation is left out.
pub fn list_conflicts(skills: &Vec<LocalSkill>, mutations: &Vec<LocalMutation>) -> (r: Vec<
    ConflictRecord,
>)
    ensures
        r@ == conflict_records(skills@, mutations@),
{
    let mut out: Vec<ConflictRecord> = Vec::new();
    let mut i: usize = 0;
    while i < skills.len()
        invariant
            i <= skills@.len(),
            out@ == conflict_records(skills@.take(i as int), mutations@),
        decreases skills@.len() - i,
    {
        assert(skills@.take(i + 1).drop_last() =~= skills@.take(i as int));
        let s = &skills[i];
        if s.sync_state == SkillSyncState::Conflict {
            match find_chain_head(mutations, s.id.as_str()) {
                Some(j) => {
                    let m = &mutations[j];
                    out.push(
                        ConflictRecord {
                            skill_id: copy_string(&s.id),
                            local_name: copy_string(&s.name),
                            local_slug: copy_string(&s.slug),
                            local_snapshot_hash: copy_string(&s.current_blob_hash),
                            local_base_revision: m.base_revision,
                            remote_head_revision: s.remote_revision,
                            remote_package_manifest_hash: copy_opt(&s.remote_blob_hash),
                            mutation_id: copy_string(&m.id),
                            mutation_operation: m.operation,
                        },
                    );
                },
                None => {},
            }
        }
        i = i + 1;
    }
    assert(skills@.take(skills@.len() as int) =~= skills@);
    out
}

// ---------------------------------------------------------------------
// Resolving.
/// A conflicted mutation retired by a resolution: acknowledged, so that
/// the chain unblocks, with no retry time, the `CONFLICT_RESOLVED` code and
/// a note saying why.
pub open spec fn is_superseded(before: LocalMutation, after: LocalMutation) -> bool {
    &&& after == (LocalMutation {
        state: MutationState::Acked,
        next_attempt_at: None,
        server_error_code: after.server_error_code,
        last_error: after.last_error,
        ..before
    })
    &&& after.server_error_code matches Some(c) && c@ == "CONFLICT_RESOLVED"@
    &&& after.last_error matches Some(e) && e@ == "superseded by an explicit conflict resolution"@
}

/// Retires every conflicted mutation of `skill_id`; other rows are kept
/// as they are.
pub fn supersede_conflict_chain(mutations: &Vec<LocalMutation>, skill_id: &str) -> (r: Vec<
    LocalMutation,
>)
    ensures
        r@.len() == mutations@.len(),
        forall|i: int|
            0 <= i < r@.len() ==> if is_conflict_of(#[trigger] mutations@[i], skill_id@) {
                is_superseded(mutations@[i], r@[i])
            } else {
                r@[i] == mutations@[i]
            },
{
    let mut out: Vec<LocalMutation> = Vec::new();
    let mut i: usize = 0;
    while i < mutations.len()
        invariant
            i <= mutations@.len(),
            out@.len() == i,
            forall|k: int|
                0 <= k < i ==> if is_conflict_of(#[trigger] mutations@[k], skill_id@) {
                    is_superseded(mutations@[k], out@[k])
                } else {
                    out@[k] == mutations@[k]
                },
        decreases mutations@.len() - i,
    {
        let m = mutations[i].clone_row();
        if m.state == MutationState::Conflict && str_eq(m.skill_id.as_str(), skill_id) {
            out.push(
                LocalMutation {
                    state: MutationState::Acked,
                    next_attempt_at: None,
                    server_error_code: Some(String::from_str("CONFLICT_RESOLVED")),
                    last_error: Some(
                        String::from_str("superseded by an explicit conflict resolution"),
                    ),
                    ..m
                },
            );
        } else {
            out.push(m);
        }
        i = i + 1;
    }
    out
}

/// The skill a resolution applies to must exist and be conflicted.
pub open spec fn resolution_target_check(
    skill_id: Seq<char>,
    skill: Option<LocalSkill>,
    r: Result<LocalSkill, LocalStoreError>,
) -> bool {
    match skill {
        None => r matches Err(LocalStoreError::SkillNotFound(s)) && s@ == skill_id,
        Some(k) => if k.sync_state != SkillSyncState::Conflict {
            r matches Err(LocalStoreError::InvalidInput(m)) && m@ == "skill "@ + skill_id
                + " is not conflicted (state: "@ + skill_sync_state_text(k.sync_state) + ")"@
        } else {
            r == Ok::<LocalSkill, LocalStoreError>(k)
        },
    }
}

/// Reads the skill a resolution applies to: it must exist and be in
/// conflict.
pub fn skill_for_resolution(skill_id: &str, skill: Option<LocalSkill>) -> (r: Result<
    LocalSkill,
    LocalStoreError,
>)
    ensures
        resolution_target_check(skill_id@, skill, r),
{
    let k = match skill {
        Some(k) => k,
        None => {
            return Err(LocalStoreError::SkillNotFound(skill_id.to_owned()));
        },
    };
    if k.sync_state != SkillSyncState::Conflict {
        let mut m = String::from_str("skill ");
        m.append(skill_id);
        m.append(" is not conflicted (state: ");
        m.append(k.sync_state.as_db_str());
        m.append(")");
        return Err(LocalStoreError::InvalidInput(m));
    }
    Ok(k)
}

/// What keep-local writes: the skill (dirty again, at the remote head),
/// the new update mutation, and what is reported.
#[derive(Debug, Clone)]
pub struct KeepLocal {
    pub skill: LocalSkill,
    pub mutation: LocalMutation,
    pub applied: ResolutionApplied,
}

/// The outcome of keep-local for a skill whose stored row is `skill` and
/// whose mutations' highest local sequence is `last_sequence`.
pub open spec fn keep_local_check(
    skill_id: Seq<char>,
    confirmed: bool,
    skill: Option<LocalSkill>,
    last_sequence: u64,
    r: Result<KeepLocal, LocalStoreError>,
) -> bool {
    if !confirmed {
        r matches Err(LocalStoreError::InvalidInput(m)) && m@
            == "keep-local resolution requires explicit user confirmation"@
    } else if !(skill matches Some(k) && k.sync_state == SkillSyncState::Conflict) {
        resolution_target_check(
            skill_id,
            skill,
            match r {
                Ok(k) => Ok(k.skill),
                Err(e) => Err(e),
            },
        ) && r is Err
    } else if skill->0.remote_revision is None {
        r matches Err(LocalStoreError::InvalidInput(m)) && m@ == "cannot keep local for "@
            + skill_id + ": remote head revision unknown"@
    } else {
        let k = skill->0;
        let head = if k.remote_revision->0 < 1 {
            1
        } else {
            k.remote_revision->0
        };
        r matches Ok(p) && p.skill == (LocalSkill {
            sync_state: SkillSyncState::Dirty,
            remote_revision: Some(head),
            ..k
        }) && is_fresh_mutation(
            p.mutation,
            skill_id,
            (last_sequence + 1) as nat,
            MutationOperation::Update,
            Some(head),
            k.current_blob_hash@,
        ) && p.applied.new_mutation_id == Some(p.mutation.id) && p.applied.skill_state
            == SkillSyncState::Dirty
    }
}

/// Keep-local: after explicit confirmation, re-queues the conflicted local
/// snapshot as a new update against the latest known remote head (at
/// least revision 1). The remote head must be known: without it no valid
/// update can be built. The skill becomes dirty again; the conflicted
/// chain is retired with `supersede_conflict_chain` in the same write.
pub fn resolve_keep_local(
    skill_id: &str,
    confirmed: bool,
    skill: Option<LocalSkill>,
    last_sequence: u64,
) -> (r: Result<KeepLocal, LocalStoreError>)
    requires
        last_sequence < u64::MAX,
    ensures
        keep_local_check(skill_id@, confirmed, skill, last_sequence, r),
{
    if !confirmed {
        return Err(
            LocalStoreError::InvalidInput(
                String::from_str("keep-local resolution requires explicit user confirmation"),
            ),
        );
    }
    let k = skill_for_resolution(skill_id, skill)?;
    let head = match k.remote_revision {
        Some(rev) => if rev < 1 {
            1
        } else {
            rev
        },
        None => {
            let mut m = String::from_str("cannot keep local for ");
            m.append(skill_id);
            m.append(": remote head revision unknown");
            return Err(LocalStoreError::InvalidInput(m));
        },
    };
    let mutation = fresh_mutation(
        skill_id,
        last_sequence + 1,
        MutationOperation::Update,
        Some(head),
        k.current_blob_hash.as_str(),
    );
    let id = mutation.id.clone();
    let skill = LocalSkill { sync_state: SkillSyncState::Dirty, remote_revision: Some(head), ..k };
    Ok(
        KeepLocal {
            skill,
            mutation,
            applied: ResolutionApplied {
                new_mutation_id: Some(id),
                skill_state: SkillSyncState::Dirty,
            },
        },
    )
}

/// What keep-remote writes: the skill (remote-only, at the remote
/// package), and what is reported.
#[derive(Debug, Clone)]
pub struct KeepRemote {
    pub skill: LocalSkill,
    pub applied: ResolutionApplied,
}

/// A known remote package hash: present and not empty.
pub open spec fn known_remote_hash(k: LocalSkill) -> bool {
    k.remote_blob_hash matches Some(h) && h@.len() > 0
}

/// The outcome of keep-remote for a skill whose stored row is `skill`.
pub open spec fn keep_remote_check(
    skill_id: Seq<char>,
    confirmed: bool,
    skill: Option<LocalSkill>,
    r: Result<KeepRemote, LocalStoreError>,
) -> bool {
    if !confirmed {
        r matches Err(LocalStoreError::InvalidInput(m)) && m@
            == "keep-remote resolution requires explicit user confirmation"@
    } else if !(skill matches Some(k) && k.sync_state == SkillSyncState::Conflict) {
        resolution_target_check(
            skill_id,
            skill,
            match r {
                Ok(k) => Ok(k.skill),
                Err(e) => Err(e),
            },
        ) && r is Err
    } else if !known_remote_hash(skill->0) {
        r matches Err(LocalStoreError::InvalidInput(m)) && m@ == "cannot keep remote for "@
            + skill_id + ": remote package hash unknown; pull the remote head first"@
    } else {
        let k = skill->0;
        r matches Ok(p) && p.skill == (LocalSkill {
            current_blob_hash: k.remote_blob_hash->0,
            remote_blob_hash: None,
            sync_state: SkillSyncState::RemoteOnly,
            ..k
        }) && p.applied.new_mutation_id is None && p.applied.skill_state
            == SkillSyncState::RemoteOnly
    }
}

/// Keep-remote: after explicit confirmation, drops the local pending chain
/// and adopts the remote head: the skill's current snapshot becomes the
/// remote package, which must be known, and the skill becomes remote-only
/// until it is hydrated again. The local snapshot's blobs stay in the
/// store. The conflicted chain is retired with `supersede_conflict_chain`
/// in the same write.
pub fn resolve_keep_remote(skill_id: &str, confirmed: bool, skill: Option<LocalSkill>) -> (r: Result<
    KeepRemote,
    LocalStoreError,
>)
    ensures
        keep_remote_check(skill_id@, confirmed, skill, r),
{
    if !confirmed {
        return Err(
            LocalStoreError::InvalidInput(
                String::from_str("keep-remote resolution requires explicit user confirmation"),
            ),
        );
    }
    let k = skill_for_resolution(skill_id, skill)?;
    let hash = match &k.remote_blob_hash {
        Some(h) => {
            if h.as_str().is_empty() {
                None
            } else {
                Some(h.clone())
            }
        },
        None => None,
    };
    let hash = match hash {
        Some(h) => h,
        None => {
            let mut m = String::from_str("cannot keep remote for ");
            m.append(skill_id);
            m.append(": remote package hash unknown; pull the remote head first");
            return Err(LocalStoreError::InvalidInput(m));
        },
    };
    let skill = LocalSkill {
        current_blob_hash: hash,
        remote_blob_hash: None,
        sync_state: SkillSyncState::RemoteOnly,
        ..k
    };
    Ok(
        KeepRemote {
            skill,
            applied: ResolutionApplied { new_mutation_id: None, skill_state: SkillSyncState::RemoteOnly },
        },
    )
}

// ---------------------------------------------------------------------
// Laws.
/// After a resolution retires the chain, no mutation of the skill is left
/// in conflict: every one that was is now acknowledged, so nothing blocks
/// the skill's later mutations.
pub proof fn lemma_resolution_clears_conflicts(
    before: Seq<LocalMutation>,
    after: Seq<LocalMutation>,
    skill_id: Seq<char>,
)
    requires
        after.len() == before.len(),
        forall|i: int|
            0 <= i < after.len() ==> if is_conflict_of(#[trigger] before[i], skill_id) {
                is_superseded(before[i], after[i])
            } else {
                after[i] == before[i]
            },
    ensures
        forall|i: int| 0 <= i < after.len() ==> !is_conflict_of(#[trigger] after[i], skill_id),
        chain_head(after, skill_id) is None,
{
    assert forall|i: int| 0 <= i < after.len() implies !is_conflict_of(#[trigger] after[i], skill_id) by {
        if is_conflict_of(before[i], skill_id) {
            assert(is_superseded(before[i], after[i]));
        }
    }
    lemma_no_conflict_no_head(after, skill_id);
}

proof fn lemma_no_conflict_no_head(muts: Seq<LocalMutation>, skill_id: Seq<char>)
    requires
        forall|i: int| 0 <= i < muts.len() ==> !is_conflict_of(#[trigger] muts[i], skill_id),
    ensures
        chain_head(muts, skill_id) is None,
    decreases muts.len(),
{
    if muts.len() > 0 {
        assert forall|i: int| 0 <= i < muts.drop_last().len() implies !is_conflict_of(
            #[trigger] muts.drop_last()[i],
            skill_id,
        ) by {
            assert(muts.drop_last()[i] == muts[i]);
        }
        lemma_no_conflict_no_head(muts.drop_last(), skill_id);
        assert(!is_conflict_of(muts[muts.len() - 1], skill_id));
    }
}

/// Neither resolution happens without explicit confirmation, and
/// keep-local always re-queues against a positive remote revision, after
/// every earlier mutation of the skill.
pub proof fn lemma_resolutions_need_confirmation(
    skill_id: Seq<char>,
    confirmed: bool,
    skill: Option<LocalSkill>,
    last_sequence: u64,
    rl: Result<KeepLocal, LocalStoreError>,
    rr: Result<KeepRemote, LocalStoreError>,
)
    requires
        keep_local_check(skill_id, confirmed, skill, last_sequence, rl),
        keep_remote_check(skill_id, confirmed, skill, rr),
    ensures
        rl is Ok || rr is Ok ==> confirmed,
        rl matches Ok(p) ==> p.mutation.base_revision matches Some(b) && b >= 1
            && p.mutation.local_sequence > last_sequence,
{
}

} // verus!
