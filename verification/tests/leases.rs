use skillhive::local_store::entitlements::{
    apply_entitlement, deployment_after_expiry, entitlement_allows_offline_use, entitlement_due,
    EntitlementPayload, StoredEntitlement, UtcInstant,
};
use skillhive::local_store::{DeploymentState, SkillDeploymentRecord, SkillSyncState};

/// Skills (id, state), their leases and deployments, changed only as the
/// library decides.
#[derive(Default)]
struct Leases {
    skills: Vec<(String, SkillSyncState)>,
    stored: Vec<StoredEntitlement>,
    deployments: Vec<SkillDeploymentRecord>,
}

impl Leases {
    fn seed_synced_skill(&mut self, skill_id: &str) {
        self.skills.push((skill_id.to_owned(), SkillSyncState::Synced));
    }

    fn state(&self, skill_id: &str) -> SkillSyncState {
        self.skills.iter().find(|(id, _)| id == skill_id).expect("skill").1
    }

    fn set_state(&mut self, skill_id: &str, state: SkillSyncState) {
        self.skills.iter_mut().find(|(id, _)| id == skill_id).expect("skill").1 = state;
    }

    fn get_entitlement(&self, skill_id: &str) -> Option<StoredEntitlement> {
        self.stored.iter().find(|e| e.skill_id == skill_id).cloned()
    }

    /// Reconciles a pulled lease; returns whether it had expired.
    fn apply(&mut self, skill_id: &str, payload: &EntitlementPayload, now: UtcInstant) -> bool {
        let write = apply_entitlement(skill_id, payload, now, Some(self.state(skill_id)), true, false)
            .expect("apply");
        if let Some(state) = write.skill_state {
            self.set_state(skill_id, state);
        }
        self.stored.retain(|e| e.skill_id != skill_id);
        self.stored.push(write.stored);
        write.reconciled.expired
    }

    /// Revokes the skills whose lease is due, and their live deployments.
    fn expire_due_entitlements(&mut self, now: UtcInstant) -> Vec<String> {
        let mut revoked = Vec::new();
        for entitlement in self.stored.clone() {
            if !entitlement_due(&entitlement, self.state(&entitlement.skill_id), now) {
                continue;
            }
            self.set_state(&entitlement.skill_id, SkillSyncState::AccessRevoked);
            for deployment in self.deployments.iter_mut().filter(|d| d.skill_id == entitlement.skill_id) {
                if let Some((state, note)) = deployment_after_expiry(deployment.state) {
                    deployment.state = state;
                    deployment.last_error = Some(note);
                }
            }
            revoked.push(entitlement.skill_id.clone());
        }
        revoked
    }
}

fn at(seconds: i64) -> UtcInstant {
    UtcInstant { seconds, nanos: 0 }
}

fn entitlement(issued: &str, expires: &str) -> EntitlementPayload {
    EntitlementPayload {
        lease: "lease-token".to_owned(),
        permission_level: "use".to_owned(),
        offline_policy: "ttl".to_owned(),
        offline_ttl_hours: Some(8),
        issued_at: Some(issued.to_owned()),
        expires_at: Some(expires.to_owned()),
    }
}

#[test]
fn fresh_entitlement_stores_and_keeps_skill_usable() {
    let mut store = Leases::default();
    store.seed_synced_skill("skill-1");
    let now = at(1_788_696_000);
    let payload = entitlement("2026-09-06T12:00:00Z", "2026-09-07T12:00:00Z");
    assert!(!store.apply("skill-1", &payload, now));

    let stored = store.get_entitlement("skill-1").expect("row");
    assert_eq!(stored.offline_policy, "ttl");
    assert_eq!(stored.lease, "lease-token");
    assert_eq!(store.state("skill-1"), SkillSyncState::Synced);
    assert!(entitlement_allows_offline_use(store.get_entitlement("skill-1").as_ref(), now));
}

#[test]
fn expired_entitlement_revokes_skill_at_apply() {
    let mut store = Leases::default();
    store.seed_synced_skill("skill-2");
    let now = at(1_788_696_000 + 48 * 3600);
    let payload = entitlement("2026-09-06T12:00:00Z", "2026-09-07T12:00:00Z");
    assert!(store.apply("skill-2", &payload, now));

    assert_eq!(store.state("skill-2"), SkillSyncState::AccessRevoked);
    assert!(!entitlement_allows_offline_use(store.get_entitlement("skill-2").as_ref(), now));
}

#[test]
fn expire_due_entitlements_revokes_only_expired_clean_skills() {
    let mut store = Leases::default();
    store.seed_synced_skill("skill-3");
    store.seed_synced_skill("skill-4");
    let now = at(1_788_696_000 + 48 * 3600);
    store.apply("skill-3", &entitlement("2026-09-06T12:00:00Z", "2026-09-07T12:00:00Z"), now);
    store.apply("skill-4", &entitlement("2026-09-06T12:00:00Z", "2027-01-01T00:00:00Z"), now);

    let revoked = store.expire_due_entitlements(now);
    assert!(revoked.is_empty());
    assert_eq!(store.state("skill-3"), SkillSyncState::AccessRevoked);
    assert_eq!(store.state("skill-4"), SkillSyncState::Synced);
}

#[test]
fn expire_due_entitlements_marks_deployments_revoked() {
    let mut store = Leases::default();
    store.seed_synced_skill("skill-5");
    store.deployments.push(SkillDeploymentRecord {
        skill_id: "skill-5".to_owned(),
        agent_profile_id: "profile-1".to_owned(),
        deployed_blob_hash: "sha256:local".to_owned(),
        target_path: "C:\\agent\\managed".to_owned(),
        state: DeploymentState::Installed,
        last_error: None,
    });
    let now = at(1_788_696_000 + 48 * 3600);
    store.apply("skill-5", &entitlement("2026-09-06T12:00:00Z", "2026-09-07T12:00:00Z"), now);
    assert_eq!(store.deployments[0].state, DeploymentState::Installed);

    store.set_state("skill-5", SkillSyncState::Synced);
    let revoked = store.expire_due_entitlements(now);
    assert_eq!(revoked, vec!["skill-5".to_owned()]);
    assert_eq!(store.deployments[0].state, DeploymentState::Revoked);
}

#[test]
fn fresh_lease_clears_expired_revocation_but_not_permission_revocation() {
    let mut store = Leases::default();
    store.seed_synced_skill("skill-6");
    store.set_state("skill-6", SkillSyncState::AccessRevoked);
    let now = at(1_788_696_000);
    store.apply("skill-6", &entitlement("2026-09-06T12:00:00Z", "2027-01-01T00:00:00Z"), now);
    assert_eq!(store.state("skill-6"), SkillSyncState::RemoteOnly);
}
