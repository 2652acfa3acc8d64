use skillhive::local_store::conflicts::list_conflicts;
use skillhive::local_store::mutations::{
    claim_mutation, commit_skill_edit, list_dispatchable_mutations, queue_skill_delete,
    recover_in_flight_mutation,
};
use skillhive::local_store::outcomes::{
    apply_mutation_outcome, MutationOutcome, OutcomeApplied, OutcomeTarget, OutcomeWrite,
};
use skillhive::local_store::{
    CommitSkillEdit, LocalMutation, LocalSkill, LocalStoreError, MutationOperation, MutationState,
    SkillSyncState,
};

/// The outbox and skill rows as a store holds them, changed only through
/// the library's decisions.
#[derive(Default)]
struct Outbox {
    skills: Vec<LocalSkill>,
    mutations: Vec<LocalMutation>,
}

impl Outbox {
    fn skill(&self, skill_id: &str) -> Option<LocalSkill> {
        self.skills.iter().find(|s| s.id == skill_id).cloned()
    }

    fn put_skill(&mut self, skill: LocalSkill) {
        match self.skills.iter_mut().find(|s| s.id == skill.id) {
            Some(row) => *row = skill,
            None => self.skills.push(skill),
        }
    }

    fn put_mutation(&mut self, mutation: LocalMutation) {
        match self.mutations.iter_mut().find(|m| m.id == mutation.id) {
            Some(row) => *row = mutation,
            None => self.mutations.push(mutation),
        }
    }

    fn last_sequence(&self, skill_id: &str) -> u64 {
        self.mutations
            .iter()
            .filter(|m| m.skill_id == skill_id)
            .map(|m| m.local_sequence)
            .max()
            .unwrap_or(0)
    }

    fn commit_skill_edit(&mut self, edit: CommitSkillEdit) -> Result<LocalMutation, LocalStoreError> {
        let existing = self.skill(&edit.skill_id);
        let last = self.last_sequence(&edit.skill_id);
        let (skill, mutation) = commit_skill_edit(edit, existing.as_ref(), last)?;
        self.put_skill(skill);
        self.put_mutation(mutation.clone());
        Ok(mutation)
    }

    fn queue_skill_delete(&mut self, skill_id: &str) -> Result<LocalMutation, LocalStoreError> {
        let existing = self.skill(skill_id);
        let last = self.last_sequence(skill_id);
        let (skill, mutation) = queue_skill_delete(skill_id, None, existing.as_ref(), last)?;
        self.put_skill(skill);
        self.put_mutation(mutation.clone());
        Ok(mutation)
    }

    fn list_dispatchable_mutations(&self, limit: u32) -> Vec<LocalMutation> {
        let due = vec![true; self.mutations.len()];
        list_dispatchable_mutations(&self.mutations, &due, limit)
    }

    fn claim_dispatchable_mutations(&mut self, limit: u32) -> Vec<LocalMutation> {
        let mut claimed = Vec::new();
        for mutation in self.list_dispatchable_mutations(limit) {
            let next = claim_mutation(&mutation, "2026-01-01T00:00:00+00:00").expect("claim");
            self.put_mutation(next.clone());
            claimed.push(next);
        }
        claimed
    }

    fn recover_in_flight_mutations(&mut self) -> u64 {
        let mut recovered: u64 = 0;
        for mutation in self.mutations.clone() {
            if let Some(requeued) = recover_in_flight_mutation(&mutation) {
                self.put_mutation(requeued);
                recovered += 1;
            }
        }
        recovered
    }

    fn set_state(&mut self, mutation_id: &str, state: MutationState) {
        let row = self.mutations.iter_mut().find(|m| m.id == mutation_id).expect("mutation");
        row.state = state;
    }

    fn apply_mutation_outcome(&mut self, outcome: &MutationOutcome) -> Result<OutcomeApplied, LocalStoreError> {
        let stored = self.mutations.iter().find(|m| m.id == outcome.mutation_id).cloned();
        let target = stored.as_ref().map(|m| OutcomeTarget {
            skill_id: m.skill_id.clone(),
            state: m.state.as_db_str().to_owned(),
            retry_count: m.retry_count,
        });
        let (skill_state, other_unacked) = match &stored {
            Some(m) => (
                self.skill(&m.skill_id).map(|s| s.sync_state),
                self.mutations
                    .iter()
                    .any(|o| o.skill_id == m.skill_id && o.id != m.id && o.state != MutationState::Acked),
            ),
            None => (None, false),
        };
        let (write, applied) = apply_mutation_outcome(target.as_ref(), skill_state, other_unacked, outcome)?;
        let mut mutation = stored.expect("a decided outcome has a target");
        let mut skill = self.skill(&mutation.skill_id).expect("skill");
        match write {
            OutcomeWrite::Unchanged => return Ok(applied),
            OutcomeWrite::Acked { revision, remote_skill_id, skill_state } => {
                mutation.state = MutationState::Acked;
                mutation.acknowledged_remote_revision = Some(revision);
                if remote_skill_id.is_some() {
                    mutation.acknowledged_remote_id = remote_skill_id.clone();
                    skill.remote_id = remote_skill_id;
                }
                skill.remote_revision = Some(revision);
                if let Some(state) = skill_state {
                    skill.sync_state = state;
                }
            }
            OutcomeWrite::Definitive { mutation_state, skill_state, remote_package_manifest_hash } => {
                mutation.state = mutation_state;
                mutation.last_error = outcome.message.clone();
                skill.sync_state = skill_state;
                if remote_package_manifest_hash.is_some() {
                    skill.remote_blob_hash = remote_package_manifest_hash;
                }
            }
            OutcomeWrite::Retry { .. } => {
                mutation.state = MutationState::RetryableError;
            }
        }
        self.put_mutation(mutation);
        self.put_skill(skill);
        Ok(applied)
    }
}

fn outbox_edit(skill_id: &str, name: &str, slug: &str) -> CommitSkillEdit {
    CommitSkillEdit {
        skill_id: skill_id.to_owned(),
        remote_id: None,
        name: name.to_owned(),
        slug: slug.to_owned(),
        workspace_path: "/tmp/skillhive/code-review".to_owned(),
        blob_hash: "sha256:abc123".to_owned(),
        base_revision: None,
        operation: MutationOperation::Create,
    }
}

fn sample_edit(skill_id: &str) -> CommitSkillEdit {
    outbox_edit(skill_id, "Code Review", "code-review")
}

fn outcomes_edit(skill_id: &str) -> CommitSkillEdit {
    outbox_edit(skill_id, "Outcomes Skill", "outcomes-skill")
}

fn ack_outcome(mutation_id: &str, revision: i64) -> MutationOutcome {
    MutationOutcome {
        mutation_id: mutation_id.to_owned(),
        status: "acked".to_owned(),
        remote_skill_id: Some("remote-1".to_owned()),
        revision: Some(revision),
        conflict_head_revision: None,
        conflict_package_manifest_hash: None,
        error_code: None,
        message: None,
    }
}

#[test]
fn local_edit_and_outbox_entry_commit_together() {
    let mut store = Outbox::default();
    let mutation = store.commit_skill_edit(sample_edit("skill-1")).expect("commit");

    assert_eq!(mutation.state, MutationState::Pending);
    assert_eq!(mutation.local_sequence, 1);
    let skill = store.skill("skill-1").expect("skill");
    assert_eq!(skill.sync_state, SkillSyncState::Dirty);
    assert_eq!(store.list_dispatchable_mutations(10).len(), 1);
}

#[test]
fn claim_is_atomic_and_restart_requeues_in_flight_id() {
    let mut store = Outbox::default();
    let original = store.commit_skill_edit(sample_edit("skill-1")).expect("commit");

    let claimed = store.claim_dispatchable_mutations(10);
    assert_eq!(claimed.len(), 1);
    assert_eq!(claimed[0].id, original.id);
    assert_eq!(claimed[0].state, MutationState::InFlight);
    assert_eq!(claimed[0].retry_count, 1);
    assert!(store.claim_dispatchable_mutations(10).is_empty());

    assert_eq!(store.recover_in_flight_mutations(), 1);
    let retried = store.claim_dispatchable_mutations(10);
    assert_eq!(retried.len(), 1);
    assert_eq!(retried[0].id, original.id);
    assert_eq!(retried[0].retry_count, 2);
}

#[test]
fn later_mutation_for_same_skill_waits_for_ack() {
    let mut store = Outbox::default();
    let first = store.commit_skill_edit(sample_edit("skill-1")).expect("first");
    let mut second_edit = sample_edit("skill-1");
    second_edit.operation = MutationOperation::Update;
    let second = store.commit_skill_edit(second_edit).expect("second");

    assert_eq!(first.local_sequence, 1);
    assert_eq!(second.local_sequence, 2);
    let dispatchable = store.list_dispatchable_mutations(10);
    assert_eq!(dispatchable.len(), 1);
    assert_eq!(dispatchable[0].id, first.id);

    store.set_state(&first.id, MutationState::Acked);
    let dispatchable = store.list_dispatchable_mutations(10);
    assert_eq!(dispatchable.len(), 1);
    assert_eq!(dispatchable[0].id, second.id);
}

#[test]
fn delete_waits_behind_unacked_create() {
    let mut store = Outbox::default();
    let created = store.commit_skill_edit(sample_edit("skill-1")).expect("commit");
    let deletion = store.queue_skill_delete("skill-1").expect("delete");

    assert_eq!(deletion.operation, MutationOperation::Delete);
    assert_eq!(deletion.local_sequence, created.local_sequence + 1);
    assert!(store.skill("skill-1").is_some());
    let dispatchable = store.list_dispatchable_mutations(10);
    assert_eq!(dispatchable.len(), 1);
    assert_eq!(dispatchable[0].id, created.id);
}

#[test]
fn acked_outcome_maps_remote_id_and_syncs_skill() {
    let mut store = Outbox::default();
    let mutation = store.commit_skill_edit(outcomes_edit("skill-1")).expect("commit");

    let applied = store.apply_mutation_outcome(&ack_outcome(&mutation.id, 1)).expect("apply");
    assert_eq!(applied.mutation_state, MutationState::Acked);
    assert_eq!(applied.skill_state, Some(SkillSyncState::Synced));

    let skill = store.skill("skill-1").expect("skill");
    assert_eq!(skill.remote_id.as_deref(), Some("remote-1"));
    assert_eq!(skill.remote_revision, Some(1));
    assert_eq!(skill.sync_state, SkillSyncState::Synced);
}

#[test]
fn acked_create_keeps_skill_dirty_while_later_mutation_pending() {
    let mut store = Outbox::default();
    let create = store.commit_skill_edit(outcomes_edit("skill-1")).expect("create");
    let mut edit = outcomes_edit("skill-1");
    edit.operation = MutationOperation::Update;
    let update = store.commit_skill_edit(edit).expect("update");

    store.apply_mutation_outcome(&ack_outcome(&create.id, 1)).expect("ack create");
    let skill = store.skill("skill-1").expect("skill");
    assert_eq!(skill.sync_state, SkillSyncState::Dirty);
    assert_eq!(skill.remote_id.as_deref(), Some("remote-1"));

    store.apply_mutation_outcome(&ack_outcome(&update.id, 2)).expect("ack update");
    let skill = store.skill("skill-1").expect("skill");
    assert_eq!(skill.sync_state, SkillSyncState::Synced);
    assert_eq!(skill.remote_revision, Some(2));
}

#[test]
fn conflict_outcome_marks_conflict_and_keeps_snapshot() {
    let mut store = Outbox::default();
    let mutation = store.commit_skill_edit(outcomes_edit("skill-1")).expect("commit");

    let applied = store
        .apply_mutation_outcome(&MutationOutcome {
            mutation_id: mutation.id.clone(),
            status: "conflict".to_owned(),
            remote_skill_id: Some("remote-1".to_owned()),
            revision: None,
            conflict_head_revision: Some(9),
            conflict_package_manifest_hash: None,
            error_code: Some("REVISION_CONFLICT".to_owned()),
            message: Some("server head advanced".to_owned()),
        })
        .expect("apply");

    assert_eq!(applied.mutation_state, MutationState::Conflict);
    assert_eq!(applied.skill_state, Some(SkillSyncState::Conflict));
    let skill = store.skill("skill-1").expect("skill");
    assert_eq!(skill.sync_state, SkillSyncState::Conflict);
    assert_eq!(skill.current_blob_hash, "sha256:abc123");
}

#[test]
fn permission_denied_preserves_local_work() {
    let mut store = Outbox::default();
    let mutation = store.commit_skill_edit(outcomes_edit("skill-1")).expect("commit");

    store
        .apply_mutation_outcome(&MutationOutcome {
            mutation_id: mutation.id.clone(),
            status: "permission_denied".to_owned(),
            remote_skill_id: None,
            revision: None,
            conflict_head_revision: None,
            conflict_package_manifest_hash: None,
            error_code: Some("SKILL_NOT_FOUND".to_owned()),
            message: Some("not found".to_owned()),
        })
        .expect("apply");

    let skill = store.skill("skill-1").expect("skill");
    assert_eq!(skill.sync_state, SkillSyncState::AccessRevoked);
    assert_eq!(skill.current_blob_hash, "sha256:abc123");
}

#[test]
fn unknown_mutation_id_is_rejected() {
    let mut store = Outbox::default();
    let error = store
        .apply_mutation_outcome(&ack_outcome("missing-mutation", 1))
        .expect_err("must fail");
    assert!(matches!(error, LocalStoreError::OutboxClaimLost(_)));
}

#[test]
fn list_conflicts_surfaces_skill_and_mutation_state() {
    let mut store = Outbox::default();
    let mutation = store
        .commit_skill_edit(CommitSkillEdit {
            skill_id: "skill-1".to_owned(),
            remote_id: Some("remote-1".to_owned()),
            name: "Conflicted".to_owned(),
            slug: "conflicted".to_owned(),
            workspace_path: "/tmp/skillhive-conflict".to_owned(),
            blob_hash: "sha256:local".to_owned(),
            base_revision: Some(1),
            operation: MutationOperation::Update,
        })
        .expect("commit edit");
    store
        .apply_mutation_outcome(&MutationOutcome {
            mutation_id: mutation.id.clone(),
            status: "conflict".to_owned(),
            remote_skill_id: Some("remote-1".to_owned()),
            revision: None,
            conflict_head_revision: Some(7),
            conflict_package_manifest_hash: Some("sha256:remote".to_owned()),
            error_code: Some("REVISION_CONFLICT".to_owned()),
            message: Some("server head advanced".to_owned()),
        })
        .expect("apply conflict");
    // A pull has observed the remote head revision.
    let mut skill = store.skill("skill-1").expect("skill");
    skill.remote_revision = Some(7);
    store.put_skill(skill);

    let conflicts = list_conflicts(&store.skills, &store.mutations);
    assert_eq!(conflicts.len(), 1);
    let record = &conflicts[0];
    assert_eq!(record.skill_id, "skill-1");
    assert_eq!(record.local_snapshot_hash, "sha256:local");
    assert_eq!(record.local_base_revision, Some(1));
    assert_eq!(record.remote_head_revision, Some(7));
    assert_eq!(record.remote_package_manifest_hash.as_deref(), Some("sha256:remote"));
    assert_eq!(record.mutation_operation, MutationOperation::Update);
}
