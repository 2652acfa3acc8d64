//! Submitting one outbox mutation: the request built from the stored
//! mutation, and the server's answer decoded into a durable outcome.
use vstd::prelude::*;
use crate::local_store::outcomes::MutationOutcome;
use crate::local_store::{LocalMutation, MutationOperation};

verus! {

pub const MUTATIONS_PATH: &'static str = "/api/v1/sync/mutations";

/// Wire model of a mutation submission.
#[derive(Debug, Clone)]
pub struct MutationRequest {
    pub protocol_version: u32,
    pub device_id: String,
    pub mutation_id: String,
    pub operation: String,
    pub client_skill_id: String,
    pub remote_skill_id: Option<String>,
    pub base_revision: Option<i64>,
    pub package_manifest_hash: Option<String>,
    pub metadata: Option<MutationMetadata>,
}

/// Skill metadata sent with a mutation.
#[derive(Debug, Clone)]
pub struct MutationMetadata {
    pub name: String,
    pub slug: String,
    pub description: Option<String>,
    pub category: Option<String>,
    pub tags: Option<Vec<String>>,
}

/// Wire model of the server's answer.
#[derive(Debug, Clone)]
pub struct MutationResponse {
    pub protocol_version: u32,
    pub mutation_id: String,
    pub status: String,
    pub result: Option<MutationResultPayload>,
    pub conflict: Option<ConflictHeadPayload>,
    pub error_code: Option<String>,
    pub message: Option<String>,
    pub retryable: bool,
}

#[derive(Debug, Clone)]
pub struct MutationResultPayload {
    pub remote_skill_id: String,
    pub revision: i64,
    pub package_manifest_hash: Option<String>,
}

#[derive(Debug, Clone)]
pub struct ConflictHeadPayload {
    pub remote_skill_id: String,
    pub revision: i64,
    pub package_manifest_hash: Option<String>,
}

impl MutationResponse {
    /// The durable outcome of an answer: its status and error, the remote
    /// id and revision of an acknowledgement, and the remote head of a
    /// conflict.
    pub fn into_outcome(self) -> (o: MutationOutcome)
        ensures
            o.mutation_id == self.mutation_id,
            o.status == self.status,
            o.remote_skill_id == match self.result {
                Some(r) => Some(r.remote_skill_id),
                None => None::<String>,
            },
            o.revision == match self.result {
                Some(r) => Some(r.revision),
                None => None::<i64>,
            },
            o.conflict_head_revision == match self.conflict {
                Some(c) => Some(c.revision),
                None => None::<i64>,
            },
            o.conflict_package_manifest_hash == match self.conflict {
                Some(c) => c.package_manifest_hash,
                None => None::<String>,
            },
            o.error_code == self.error_code,
            o.message == self.message,
    {
        let (remote_skill_id, revision) = match self.result {
            Some(r) => (Some(r.remote_skill_id), Some(r.revision)),
            None => (None, None),
        };
        let (conflict_head_revision, conflict_package_manifest_hash) = match self.conflict {
            Some(c) => (Some(c.revision), c.package_manifest_hash),
            None => (None, None),
        };
        MutationOutcome {
            mutation_id: self.mutation_id,
            status: self.status,
            remote_skill_id,
            revision,
            conflict_head_revision,
            conflict_package_manifest_hash,
            error_code: self.error_code,
            message: self.message,
        }
    }
}

impl LocalMutation {
    /// The package a mutation submits: its payload, except for a delete.
    pub fn package_manifest_hash_of(&self) -> (r: Option<&str>)
        ensures
            self.operation == MutationOperation::Delete ==> r is None,
            self.operation != MutationOperation::Delete ==> (r matches Some(h) && h@
                == self.payload_hash@),
    {
        match self.operation {
            MutationOperation::Delete => None,
            _ => Some(self.payload_hash.as_str()),
        }
    }
}

/// The submission of a stored mutation from this device: the mutation's
/// own id, operation, skill, base revision and package; the remote skill id
/// it was acknowledged under, else the skill's known one.
pub fn mutation_request(
    device_id: &str,
    mutation: &LocalMutation,
    skill_remote_id: Option<&str>,
    metadata: Option<MutationMetadata>,
) -> (r: MutationRequest)
    ensures
        r.protocol_version == 1,
        r.device_id@ == device_id@,
        r.mutation_id@ == mutation.id@,
        r.operation@ == crate::local_store::mutation_operation_text(mutation.operation),
        r.client_skill_id@ == mutation.skill_id@,
        match mutation.acknowledged_remote_id {
            Some(a) => r.remote_skill_id matches Some(x) && x@ == a@,
            None => match skill_remote_id {
                Some(s) => r.remote_skill_id matches Some(x) && x@ == s@,
                None => r.remote_skill_id is None,
            },
        },
        r.base_revision == mutation.base_revision,
        mutation.operation == MutationOperation::Delete ==> r.package_manifest_hash is None,
        mutation.operation != MutationOperation::Delete ==> (r.package_manifest_hash matches Some(h)
            && h@ == mutation.payload_hash@),
        r.metadata == metadata,
{
    let remote_skill_id = match &mutation.acknowledged_remote_id {
        Some(a) => Some(a.clone()),
        None => match skill_remote_id {
            Some(s) => Some(s.to_owned()),
            None => None,
        },
    };
    let package_manifest_hash = match mutation.package_manifest_hash_of() {
        Some(h) => Some(h.to_owned()),
        None => None,
    };
    MutationRequest {
        protocol_version: 1,
        device_id: device_id.to_owned(),
        mutation_id: mutation.id.clone(),
        operation: mutation.operation.as_db_str().to_owned(),
        client_skill_id: mutation.skill_id.clone(),
        remote_skill_id,
        base_revision: mutation.base_revision,
        package_manifest_hash,
        metadata,
    }
}

} // verus!
