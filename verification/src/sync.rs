//! One sync cycle: session, device, push, pull.
//!
//! Correctness lives in the durable store (receipt-keyed mutation ids, the
//! durable cursor, the persisted backoff), not in the worker: each step
//! either advances durable state or leaves it as it was. This module holds
//! the cycle's decisions: how failures are classified, what a failed
//! dispatch records, and what the cycle reports.
use vstd::prelude::*;
use crate::local_store::outcomes::MutationOutcome;
use crate::local_store::{LocalMutation, MutationOperation};
use crate::sync_client::{DeviceRegistration, SyncClientError};
use crate::sync_pull::{PullSummary, MAX_PAGES_PER_CYCLE};

verus! {

/// Mutations dispatched per cycle at most.
pub const MAX_MUTATIONS_PER_CYCLE: u32 = 50;

/// Wait after a transport-grade failure before the next cycle, in seconds.
pub const CYCLE_RETRY_DELAY_SECS: u64 = 5;

#[derive(Debug)]
pub enum SyncCycleError {
    /// Never signed in: the worker stops until a login happens.
    NotSignedIn,
    /// Authentication or device failure: stops the cycle, never touches
    /// mutation state.
    Authentication(SyncClientError),
    /// Any other failure, by stage, with its text.
    Failed { stage: &'static str, source: String },
}

#[derive(Debug, Clone, PartialEq, Eq)]
pub struct SyncCycleReport {
    pub pushed: usize,
    pub pulled: bool,
    pub pages_applied: usize,
    pub upserts: usize,
    pub tombstones: usize,
    pub conflicts_detected: u64,
    pub blobs_downloaded: usize,
    pub stopped_reason: Option<String>,
}

impl SyncCycleReport {
    /// The pull reached its per-cycle page bound, with more pages waiting.
    pub fn has_more(&self) -> (b: bool)
        ensures
            b == (self.pages_applied >= MAX_PAGES_PER_CYCLE),
    {
        self.pages_applied >= MAX_PAGES_PER_CYCLE
    }
}

/// The text each cycle failure is reported with.
pub open spec fn sync_cycle_error_text(e: SyncCycleError) -> Seq<char> {
    match e {
        SyncCycleError::NotSignedIn => "not signed in"@,
        SyncCycleError::Authentication(c) => "authentication/device failure: "@
            + crate::sync_client::sync_client_error_text(c),
        SyncCycleError::Failed { stage, source } => stage@ + ": "@ + source@,
    }
}

impl SyncCycleError {
    /// The human-readable text of the failure.
    pub fn message(&self) -> (s: String)
        ensures
            s@ == sync_cycle_error_text(*self),
    {
        match self {
            SyncCycleError::NotSignedIn => String::from_str("not signed in"),
            SyncCycleError::Authentication(e) => {
                let mut s = String::from_str("authentication/device failure: ");
                s.append(e.message().as_str());
                s
            },
            SyncCycleError::Failed { stage, source } => {
                let mut s = String::from_str(stage);
                s.append(": ");
                s.append(source.as_str());
                s
            },
        }
    }
}

/// The cycle error of a failed session step: not signed in, an
/// authentication failure, or a failure of the session refresh stage.
pub fn classify_session_failure(error: SyncClientError) -> (e: SyncCycleError)
    ensures
        error is NotSignedIn ==> e is NotSignedIn,
        error is Authentication ==> (e matches SyncCycleError::Authentication(inner) && inner
            == error),
        !(error is NotSignedIn) && !(error is Authentication) ==> (e matches SyncCycleError::Failed {
            stage,
            source,
        } && stage@ == "session refresh"@ && source@ == crate::sync_client::sync_client_error_text(
            error,
        )),
{
    match error {
        SyncClientError::NotSignedIn => SyncCycleError::NotSignedIn,
        SyncClientError::Authentication { .. } => SyncCycleError::Authentication(error),
        other => SyncCycleError::Failed { stage: "session refresh", source: other.message() },
    }
}

/// The failure reported for a registration the server revoked.
pub fn device_check(device: &DeviceRegistration) -> (r: Result<(), SyncCycleError>)
    ensures
        r is Ok <==> device.revoked_at is None,
        r matches Err(e) ==> e matches SyncCycleError::Authentication(
            SyncClientError::Authentication { code, status },
        ) && code@ == "DEVICE_REVOKED"@ && status == 403,
{
    if device.is_revoked() {
        return Err(
            SyncCycleError::Authentication(
                SyncClientError::Authentication {
                    code: String::from_str("DEVICE_REVOKED"),
                    status: 403,
                },
            ),
        );
    }
    Ok(())
}

/// A mutation carries a package to upload before it is submitted: every
/// operation but a delete.
pub fn needs_package_upload(mutation: &LocalMutation) -> (b: bool)
    ensures
        b == (mutation.operation != MutationOperation::Delete),
{
    mutation.operation != MutationOperation::Delete
}

/// What a failed package upload records: a retryable transport outcome
/// (nothing was committed on the server).
pub fn package_failure_outcome(mutation: &LocalMutation, message: &str) -> (o: MutationOutcome)
    ensures
        o.mutation_id@ == mutation.id@,
        o.status@ == "transport_error"@,
        o.error_code matches Some(c) && c@ == "PACKAGE_UPLOAD_FAILED"@,
        o.message matches Some(m) && m@ == message@,
        o.revision is None,
        o.remote_skill_id is None,
{
    MutationOutcome::transport_error(mutation.id.as_str(), "PACKAGE_UPLOAD_FAILED", message)
}

/// The error code a failed submission is recorded with: the server's, or
/// `TRANSPORT_ERROR` when it sent none.
pub open spec fn submit_error_code(error: SyncClientError) -> Seq<char> {
    match error {
        SyncClientError::Authentication { code, .. } => code@,
        SyncClientError::Request { code, .. } => code@,
        SyncClientError::Server { code: Some(code), .. } => code@,
        _ => "TRANSPORT_ERROR"@,
    }
}

/// The outcome recorded for a failed submission of `mutation` with status
/// `status`: the error's code and text, nothing else.
pub open spec fn recorded_failure(
    o: MutationOutcome,
    mutation: LocalMutation,
    error: SyncClientError,
    status: Seq<char>,
) -> bool {
    &&& o.mutation_id@ == mutation.id@
    &&& o.status@ == status
    &&& o.remote_skill_id is None
    &&& o.revision is None
    &&& o.conflict_head_revision is None
    &&& o.conflict_package_manifest_hash is None
    &&& o.error_code matches Some(c) && c@ == submit_error_code(error)
    &&& o.message matches Some(m) && m@ == crate::sync_client::sync_client_error_text(error)
}

/// What a failed submission does to the mutation.
#[derive(Debug)]
pub enum SubmitFailure {
    /// An authentication or sign-in failure: stop the cycle and leave the
    /// mutation untouched.
    StopCycle(SyncCycleError),
    /// Record this outcome, then fail the cycle at the submit stage.
    Record(MutationOutcome),
}

/// Classifies a failed submission: authentication and sign-in failures
/// stop the cycle without touching the mutation; a request the server
/// rejected is a permanent validation failure (never retried); anything
/// else is transport-grade and retried with backoff. The error code is the
/// server's, or `TRANSPORT_ERROR`.
pub fn submit_failure(mutation: &LocalMutation, error: SyncClientError) -> (r: SubmitFailure)
    ensures
        (error is Authentication || error is NotSignedIn) ==> (r matches SubmitFailure::StopCycle(
            SyncCycleError::Authentication(e),
        ) && e == error),
        error is Request ==> (r matches SubmitFailure::Record(o) && recorded_failure(
            o,
            *mutation,
            error,
            "validation_error"@,
        )),
        !(error is Authentication || error is NotSignedIn || error is Request) ==> (r matches SubmitFailure::Record(
            o,
        ) && recorded_failure(o, *mutation, error, "transport_error"@)),
{
    match error {
        SyncClientError::Authentication { .. } => {
            return SubmitFailure::StopCycle(SyncCycleError::Authentication(error));
        },
        SyncClientError::NotSignedIn => {
            return SubmitFailure::StopCycle(SyncCycleError::Authentication(error));
        },
        _ => {},
    }
    let code = match error.error_code() {
        Some(c) => c.to_owned(),
        None => String::from_str("TRANSPORT_ERROR"),
    };
    let message = error.message();
    match error {
        SyncClientError::Request { .. } => SubmitFailure::Record(
            MutationOutcome {
                mutation_id: mutation.id.clone(),
                status: String::from_str("validation_error"),
                remote_skill_id: None,
                revision: None,
                conflict_head_revision: None,
                conflict_package_manifest_hash: None,
                error_code: Some(code),
                message: Some(message),
            },
        ),
        _ => SubmitFailure::Record(
            MutationOutcome::transport_error(mutation.id.as_str(), code.as_str(), message.as_str()),
        ),
    }
}

/// The cycle error reported after recording a failed submission.
pub fn submit_stage_failure(error: &SyncClientError) -> (e: SyncCycleError)
    ensures
        e matches SyncCycleError::Failed { stage, source } && stage@ == "mutation submit"@
            && source@ == crate::sync_client::sync_client_error_text(*error),
{
    SyncCycleError::Failed { stage: "mutation submit", source: error.message() }
}

/// The text recorded for a failure that stopped the push.
pub fn failure_message(error: &SyncCycleError) -> (s: String)
    ensures
        s@ == sync_cycle_error_text(*error),
{
    error.message()
}

/// The report of a completed cycle: what the push dispatched, what the pull
/// applied, and why the push stopped early, if it did.
pub fn cycle_report(pushed: usize, push_failure: Option<&SyncCycleError>, pull: &PullSummary) -> (r:
    SyncCycleReport)
    ensures
        r.pushed == pushed,
        r.pulled,
        r.pages_applied == pull.pages_applied,
        r.upserts == pull.upserts,
        r.tombstones == pull.tombstones,
        r.conflicts_detected == pull.conflicts_detected,
        r.blobs_downloaded == pull.blobs_downloaded,
        r.stopped_reason is Some <==> push_failure is Some,
        r.stopped_reason matches Some(t) ==> push_failure matches Some(e) && t@
            == sync_cycle_error_text(*e),
{
    SyncCycleReport {
        pushed,
        pulled: true,
        pages_applied: pull.pages_applied,
        upserts: pull.upserts,
        tombstones: pull.tombstones,
        conflicts_detected: pull.conflicts_detected,
        blobs_downloaded: pull.blobs_downloaded,
        stopped_reason: match push_failure {
            Some(e) => Some(failure_message(e)),
            None => None,
        },
    }
}

/// How far the push of one cycle got: mutations are dispatched in claim
/// order, the push stops at the first failure, and a push counts as a
/// success only when nothing failed. The pull runs after the push whatever
/// happened to it.
pub struct PushProgress {
    pub pushed: usize,
    pub failure: Option<SyncCycleError>,
}

impl PushProgress {
    pub fn new() -> (p: PushProgress)
        ensures
            p.pushed == 0,
            p.failure is None,
    {
        PushProgress { pushed: 0, failure: None }
    }

    /// Whether the next claimed mutation is dispatched: only while nothing
    /// has failed.
    pub fn dispatches_next(&self) -> (b: bool)
        ensures
            b == (self.failure is None),
    {
        self.failure.is_none()
    }

    /// Counts one dispatch: a success is counted, a failure stops the push
    /// and is kept for the report.
    pub fn record(&mut self, outcome: Result<(), SyncCycleError>)
        requires
            old(self).failure is None,
            old(self).pushed < usize::MAX,
        ensures
            match outcome {
                Ok(()) => final(self).pushed == old(self).pushed + 1 && final(self).failure is None,
                Err(e) => final(self).pushed == old(self).pushed && final(self).failure == Some(e),
            },
    {
        match outcome {
            Ok(()) => {
                self.pushed = self.pushed + 1;
            },
            Err(e) => {
                self.failure = Some(e);
            },
        }
    }

    /// Whether the push is recorded as a success: nothing failed.
    pub fn succeeded(&self) -> (b: bool)
        ensures
            b == (self.failure is None),
    {
        self.failure.is_none()
    }

    /// The report of the cycle once the pull summarized in `pull` ran.
    pub fn report(&self, pull: &PullSummary) -> (r: SyncCycleReport)
        ensures
            r.pushed == self.pushed,
            r.pulled,
            r.pages_applied == pull.pages_applied,
            r.upserts == pull.upserts,
            r.tombstones == pull.tombstones,
            r.conflicts_detected == pull.conflicts_detected,
            r.blobs_downloaded == pull.blobs_downloaded,
            r.stopped_reason is Some <==> self.failure is Some,
            r.stopped_reason matches Some(t) ==> self.failure matches Some(e) && t@
                == sync_cycle_error_text(e),
    {
        cycle_report(self.pushed, self.failure.as_ref(), pull)
    }
}

} // verus!
