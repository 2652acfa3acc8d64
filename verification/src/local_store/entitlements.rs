//! Entitlement leases for managed skills and what they mean offline.
//!
//! A lease expired at apply time revokes the skill at once; a fresh lease
//! restores a skill revoked by an expired lease, but never one revoked by a
//! `permission_denied` mutation outcome (that gate belongs to the outbox).
//! Deciding offline use fails closed: no lease, or an unreadable deadline,
//! means no offline use.
use vstd::prelude::*;
use crate::local_store::{DeploymentState, LocalStoreError, SkillSyncState};

verus! {

/// An instant in UTC: seconds since the Unix epoch and nanoseconds.
#[derive(Debug, Clone, Copy, PartialEq, Eq, Structural)]
pub struct UtcInstant {
    pub seconds: i64,
    pub nanos: u32,
}

/// `a` is not later than `b`.
pub open spec fn instant_le(a: UtcInstant, b: UtcInstant) -> bool {
    a.seconds < b.seconds || (a.seconds == b.seconds && a.nanos <= b.nanos)
}

pub fn instant_le_exec(a: UtcInstant, b: UtcInstant) -> (r: bool)
    ensures
        r == instant_le(a, b),
{
    a.seconds < b.seconds || (a.seconds == b.seconds && a.nanos <= b.nanos)
}

/// The instant `chrono::DateTime::parse_from_rfc3339` reads from a text,
/// converted to UTC, or `None` when chrono refuses the text.
pub uninterp spec fn spec_parse_rfc3339(text: Seq<char>) -> Option<(i64, u32)>;

/// Calls `chrono::DateTime::parse_from_rfc3339` and converts the result to
/// UTC seconds and nanoseconds. The contract names the result
/// `spec_parse_rfc3339` of the text: the same text always gives the same
/// instant, or always fails. The failure text is chrono's message.
#[verifier::external_body]
pub fn parse_rfc3339(text: &str) -> (r: Result<UtcInstant, String>)
    ensures
        match r {
            Ok(t) => spec_parse_rfc3339(text@) == Some((t.seconds, t.nanos)),
            Err(_) => spec_parse_rfc3339(text@) is None,
        },
{
    match chrono::DateTime::parse_from_rfc3339(text) {
        Ok(parsed) => {
            let utc = parsed.with_timezone(&chrono::Utc);
            Ok(UtcInstant { seconds: utc.timestamp(), nanos: utc.timestamp_subsec_nanos() })
        },
        Err(error) => Err(format!("{error}")),
    }
}

/// The instant is one `chrono::DateTime::parse_from_rfc3339` reads from
/// some text.
pub open spec fn is_parsed_instant(seconds: i64, nanos: u32) -> bool {
    exists|text: Seq<char>| #[trigger] spec_parse_rfc3339(text) == Some((seconds, nanos))
}

/// The RFC 3339 text chrono's `DateTime<Utc>::to_rfc3339` writes for an
/// instant.
pub uninterp spec fn spec_rfc3339_text(seconds: i64, nanos: u32) -> Seq<char>;

/// Calls `chrono::DateTime::from_timestamp` and then `to_rfc3339`. The
/// text, when chrono accepts the instant, is named `spec_rfc3339_text` of
/// the seconds and nanoseconds; an instant chrono cannot represent gives
/// `None`. An instant that chrono itself produced (the UTC seconds and
/// sub-second nanoseconds of a parsed `DateTime`) is always accepted:
/// chrono documents that `from_timestamp(dt.timestamp(),
/// dt.timestamp_subsec_nanos())` gives `dt` back.
#[verifier::external_body]
pub fn rfc3339_text(t: UtcInstant) -> (r: Option<String>)
    ensures
        r matches Some(s) ==> s@ == spec_rfc3339_text(t.seconds, t.nanos),
        is_parsed_instant(t.seconds, t.nanos) ==> r is Some,
{
    chrono::DateTime::from_timestamp(t.seconds, t.nanos).map(|value| value.to_rfc3339())
}

/// One lease as shipped with a change.
#[derive(Debug, Clone, PartialEq, Eq)]
pub struct EntitlementPayload {
    pub lease: String,
    pub permission_level: String,
    pub offline_policy: String,
    pub offline_ttl_hours: Option<i64>,
    pub issued_at: Option<String>,
    pub expires_at: Option<String>,
}

/// Result of reconciling one pulled lease.
#[derive(Debug, Clone, PartialEq, Eq)]
pub struct EntitlementReconciled {
    pub skill_id: String,
    pub offline_policy: String,
    pub expired: bool,
}

/// The stored lease row.
#[derive(Debug, Clone, PartialEq, Eq)]
pub struct StoredEntitlement {
    pub skill_id: String,
    pub lease: String,
    pub permission_level: String,
    pub offline_policy: String,
    pub offline_ttl_hours: Option<i64>,
    pub issued_at: Option<String>,
    pub expires_at: Option<String>,
}

impl StoredEntitlement {
    /// A field-by-field copy.
    pub fn clone_entitlement(&self) -> (c: StoredEntitlement)
        ensures
            c == *self,
    {
        StoredEntitlement {
            skill_id: self.skill_id.clone(),
            lease: self.lease.clone(),
            permission_level: self.permission_level.clone(),
            offline_policy: self.offline_policy.clone(),
            offline_ttl_hours: self.offline_ttl_hours,
            issued_at: self.issued_at.clone(),
            expires_at: self.expires_at.clone(),
        }
    }
}

/// What reconciling a lease writes.
#[derive(Debug, Clone)]
pub struct EntitlementWrite {
    pub stored: StoredEntitlement,
    /// The skill's new state, when it changes.
    pub skill_state: Option<SkillSyncState>,
    pub reconciled: EntitlementReconciled,
}

/// The skill's state after a lease is applied: an expired lease revokes a
/// usable skill; a fresh one restores a skill revoked by an expired lease.
pub open spec fn state_after_lease(
    expired: bool,
    state: Option<SkillSyncState>,
    has_remote_id: bool,
    revoked_by_outcome: bool,
) -> Option<SkillSyncState> {
    match state {
        None => None,
        Some(s) => if expired {
            if s == SkillSyncState::RemoteOnly || s == SkillSyncState::Synced {
                Some(SkillSyncState::AccessRevoked)
            } else {
                None
            }
        } else if s == SkillSyncState::AccessRevoked && has_remote_id && !revoked_by_outcome {
            Some(SkillSyncState::RemoteOnly)
        } else {
            None
        },
    }
}

fn parse_optional(
    skill_id: &str,
    field: &str,
    value: &Option<String>,
) -> (r: Result<Option<UtcInstant>, LocalStoreError>)
    ensures
        match *value {
            None => r == Ok::<Option<UtcInstant>, LocalStoreError>(None),
            Some(text) => match spec_parse_rfc3339(text@) {
                Some((s, n)) => r == Ok::<Option<UtcInstant>, LocalStoreError>(
                    Some(UtcInstant { seconds: s, nanos: n }),
                ),
                None => r matches Err(LocalStoreError::InvalidPersistedState(_)),
            },
        },
{
    match value {
        None => Ok(None),
        Some(text) => match parse_rfc3339(text.as_str()) {
            Ok(t) => Ok(Some(t)),
            Err(error) => {
                let mut m = String::from_str("entitlement for ");
                m.append(skill_id);
                m.append(" carries a malformed ");
                m.append(field);
                m.append(": ");
                m.append(error.as_str());
                Err(LocalStoreError::InvalidPersistedState(m))
            },
        },
    }
}

/// A parsed deadline as it is stored: its UTC RFC 3339 text.
fn normalized(t: Option<UtcInstant>) -> (r: Option<String>)
    ensures
        t is None ==> r is None,
        t matches Some(i) ==> (r matches Some(s) ==> s@ == spec_rfc3339_text(i.seconds, i.nanos)),
        t matches Some(i) && is_parsed_instant(i.seconds, i.nanos) ==> r is Some,
{
    match t {
        None => None,
        Some(i) => rfc3339_text(i),
    }
}

/// A pulled deadline is stored as chrono's UTC RFC 3339 text of the
/// instant it parses to.
pub open spec fn stored_deadline(pulled: Option<String>, stored: Option<String>) -> bool {
    match pulled {
        None => stored is None,
        Some(text) => match spec_parse_rfc3339(text@) {
            Some((s, n)) => stored matches Some(x) && x@ == spec_rfc3339_text(s, n),
            None => true,
        },
    }
}

/// A deadline parsed from an optional text.
pub open spec fn parsed_deadline(value: Option<String>) -> Option<(i64, u32)> {
    match value {
        None => None,
        Some(text) => spec_parse_rfc3339(text@),
    }
}

/// The lease has a deadline and it has passed at `now`.
pub open spec fn lease_expired(expires_at: Option<String>, now: UtcInstant) -> bool {
    parsed_deadline(expires_at) matches Some((s, n)) && instant_le(
        UtcInstant { seconds: s, nanos: n },
        now,
    )
}

/// Stores a pulled lease for `skill_id` and reconciles the skill's state.
///
/// `skill_state` is the skill's current state (absent when there is no
/// row), `has_remote_id` whether the server knows it, and
/// `revoked_by_outcome` whether a `permission_denied` outcome revoked it.
/// Both deadlines must parse (expiry first), else the lease is refused as
/// malformed and nothing is written.
pub fn apply_entitlement(
    skill_id: &str,
    payload: &EntitlementPayload,
    now: UtcInstant,
    skill_state: Option<SkillSyncState>,
    has_remote_id: bool,
    revoked_by_outcome: bool,
) -> (r: Result<EntitlementWrite, LocalStoreError>)
    ensures
        (payload.expires_at matches Some(t) && spec_parse_rfc3339(t@) is None) ==> r matches Err(
            LocalStoreError::InvalidPersistedState(_),
        ),
        (payload.issued_at matches Some(t) && spec_parse_rfc3339(t@) is None) ==> r is Err,
        r is Ok <==> !(payload.expires_at matches Some(t) && spec_parse_rfc3339(t@) is None) && !(
        payload.issued_at matches Some(t) && spec_parse_rfc3339(t@) is None),
        r matches Ok(w) ==> w.reconciled.expired == lease_expired(payload.expires_at, now)
            && w.reconciled.skill_id@ == skill_id@ && w.reconciled.offline_policy
            == payload.offline_policy && w.skill_state == state_after_lease(
            lease_expired(payload.expires_at, now),
            skill_state,
            has_remote_id,
            revoked_by_outcome,
        ) && w.stored.skill_id@ == skill_id@ && w.stored.lease == payload.lease
            && w.stored.permission_level == payload.permission_level && w.stored.offline_policy
            == payload.offline_policy && w.stored.offline_ttl_hours == payload.offline_ttl_hours
            && (payload.expires_at is None ==> w.stored.expires_at is None) && (
        payload.issued_at is None ==> w.stored.issued_at is None),
        r matches Ok(w) ==> stored_deadline(payload.expires_at, w.stored.expires_at)
            && stored_deadline(payload.issued_at, w.stored.issued_at),
{
    let expires = parse_optional(skill_id, "expires_at", &payload.expires_at)?;
    let issued = parse_optional(skill_id, "issued_at", &payload.issued_at)?;
    let expired = match expires {
        Some(limit) => instant_le_exec(limit, now),
        None => false,
    };
    let new_state = match skill_state {
        None => None,
        Some(s) => {
            if expired {
                if s == SkillSyncState::RemoteOnly || s == SkillSyncState::Synced {
                    Some(SkillSyncState::AccessRevoked)
                } else {
                    None
                }
            } else if s == SkillSyncState::AccessRevoked && has_remote_id && !revoked_by_outcome {
                Some(SkillSyncState::RemoteOnly)
            } else {
                None
            }
        },
    };
    Ok(
        EntitlementWrite {
            stored: StoredEntitlement {
                skill_id: skill_id.to_owned(),
                lease: payload.lease.clone(),
                permission_level: payload.permission_level.clone(),
                offline_policy: payload.offline_policy.clone(),
                offline_ttl_hours: payload.offline_ttl_hours,
                issued_at: normalized(issued),
                expires_at: normalized(expires),
            },
            skill_state: new_state,
            reconciled: EntitlementReconciled {
                skill_id: skill_id.to_owned(),
                offline_policy: payload.offline_policy.clone(),
                expired,
            },
        },
    )
}

/// Offline use is allowed only under a stored lease whose deadline parses
/// and is still ahead of `now`.
pub open spec fn spec_allows_offline_use(entitlement: Option<StoredEntitlement>, now: UtcInstant) -> bool {
    match entitlement {
        None => false,
        Some(lease) => match parsed_deadline(lease.expires_at) {
            None => false,
            Some((s, n)) => !instant_le(UtcInstant { seconds: s, nanos: n }, now),
        },
    }
}

pub fn entitlement_allows_offline_use(entitlement: Option<&StoredEntitlement>, now: UtcInstant) -> (b:
    bool)
    ensures
        b == spec_allows_offline_use(
            match entitlement {
                Some(e) => Some(*e),
                None => None,
            },
            now,
        ),
{
    match entitlement {
        None => false,
        Some(lease) => match &lease.expires_at {
            None => false,
            Some(text) => match parse_rfc3339(text.as_str()) {
                Ok(limit) => !instant_le_exec(limit, now),
                Err(_) => false,
            },
        },
    }
}

/// A stored lease whose deadline has passed at `now` expires a skill that
/// is still usable (remote-only, synced or in sync error). A stored
/// deadline that does not parse counts as passed (fail closed).
pub fn entitlement_due(entitlement: &StoredEntitlement, state: SkillSyncState, now: UtcInstant) -> (b:
    bool)
    ensures
        b == ((state == SkillSyncState::RemoteOnly || state == SkillSyncState::Synced || state
            == SkillSyncState::SyncError) && entitlement.expires_at is Some && !spec_allows_offline_use(
            Some(*entitlement),
            now,
        )),
{
    if !(state == SkillSyncState::RemoteOnly || state == SkillSyncState::Synced || state
        == SkillSyncState::SyncError) {
        return false;
    }
    match &entitlement.expires_at {
        None => false,
        Some(_) => !entitlement_allows_offline_use(Some(entitlement), now),
    }
}

/// What an expired lease does to a deployment: an active one is marked
/// revoked (with the reason); others are left as they are.
pub fn deployment_after_expiry(state: DeploymentState) -> (r: Option<(DeploymentState, String)>)
    ensures
        r is Some <==> (state == DeploymentState::Installing || state == DeploymentState::Installed
            || state == DeploymentState::Updating || state == DeploymentState::Modified),
        r matches Some((s, m)) ==> s == DeploymentState::Revoked && m@
            == "entitlement expired; deployment revoked by offline policy"@,
{
    if state == DeploymentState::Installing || state == DeploymentState::Installed || state
        == DeploymentState::Updating || state == DeploymentState::Modified {
        Some(
            (
                DeploymentState::Revoked,
                String::from_str("entitlement expired; deployment revoked by offline policy"),
            ),
        )
    } else {
        None
    }
}

/// A lease that expired can never allow offline use at a later instant,
/// and one that allows offline use now did so at every earlier instant.
pub proof fn lemma_offline_use_is_monotone(e: Option<StoredEntitlement>, a: UtcInstant, b: UtcInstant)
    requires
        instant_le(a, b),
    ensures
        spec_allows_offline_use(e, b) ==> spec_allows_offline_use(e, a),
{
}

} // verus!
