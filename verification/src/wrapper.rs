//! The course of one wrap, as a machine that is told what happened and says
//! what to do next.
//!
//! Checking the inner proof, building and proving the outer circuit, storing
//! the artifacts and running the foreign prover are done by whoever drives the
//! machine. The machine decides the order, what a failure means, and what is
//! handed to the foreign prover:
//!
//! - an inner proof that does not hold ends the wrap at once;
//! - where the artifacts are to be stored, that is tried before the foreign
//!   prover runs, and a failure to store them is reported beside the outcome
//!   without changing it;
//! - the foreign prover is handed the artifacts of this wrap, under the job
//!   name that the wrap was started with.

use vstd::prelude::*;

use crate::bridge::{
    encode_proof_request, read_proof_reply, spec_proof_request, spec_read_proof_reply, Artifacts,
    ArtifactsView, ProofRequest, ProofRequestView, SnarkPair, SnarkPairView,
};
use crate::error::{DecodeError, WrapError};
use crate::parameters::Groth16WrapperParameters;

verus! {

/// How a wrap ended.
#[derive(Debug, PartialEq, Eq)]
pub struct WrapReport {
    /// The pairing-based proof and its key, or why there is none.
    pub outcome: Result<SnarkPair, WrapError>,
    /// `Some(WrapError::PersistenceFailure)` where the artifacts were to be
    /// stored and could not be; `None` otherwise.
    pub persistence: Option<WrapError>,
}

/// Where a wrap stands.
#[derive(Debug, PartialEq, Eq)]
pub enum WrapJob {
    /// It is not yet known whether the inner proof holds.
    AwaitingVerdict { persist: bool, job_id: String },
    /// The outer circuit is being built and proved.
    AwaitingArtifacts { persist: bool, job_id: String },
    /// The artifacts are being stored.
    AwaitingPersistence { artifacts: Artifacts, job_id: String },
    /// The foreign prover is running.
    AwaitingReply { persistence: Option<WrapError> },
    /// The wrap has ended.
    Done,
}

/// What happened since the machine last spoke.
#[derive(Debug, PartialEq, Eq)]
pub enum Event {
    /// The inner proof was checked against its circuit, and holds or not.
    Verified(bool),
    /// The outer circuit was built and proved; these are its artifacts.
    Wrapped(Artifacts),
    /// The outer circuit could not be proved.
    OuterProofFailed,
    /// The artifacts could not be written as structured text.
    NotSerialised,
    /// The artifacts were stored, or could not be.
    Stored(bool),
    /// The foreign prover returned these two buffers.
    Replied { proof: Vec<u8>, verifying_key: Vec<u8> },
}

/// What is to be done next.
#[derive(Debug, PartialEq, Eq)]
pub enum Action {
    /// Check the inner proof against its circuit.
    VerifyInnerProof,
    /// Build the outer circuit with these parameters, prove it, and write its
    /// artifacts as structured text.
    Wrap(Groth16WrapperParameters),
    /// Store the artifacts.
    Persist,
    /// Hand this request to the proof entry point.
    Prove(ProofRequest),
    /// Stop: this is how the wrap ended.
    Finish(WrapReport),
    /// Nothing: the machine was not waiting for this event.
    Ignore,
}

/// A report with its texts as plain values.
pub struct ReportView {
    pub outcome: Result<SnarkPairView, WrapError>,
    pub persistence: Option<WrapError>,
}

/// Where a wrap stands, with its texts as plain values.
pub enum JobView {
    AwaitingVerdict { persist: bool, job_id: Seq<char> },
    AwaitingArtifacts { persist: bool, job_id: Seq<char> },
    AwaitingPersistence { artifacts: ArtifactsView, job_id: Seq<char> },
    AwaitingReply { persistence: Option<WrapError> },
    Done,
}

/// An event with its texts and buffers as plain values.
pub enum EventView {
    Verified(bool),
    Wrapped(ArtifactsView),
    OuterProofFailed,
    NotSerialised,
    Stored(bool),
    Replied { proof: Seq<u8>, verifying_key: Seq<u8> },
}

/// An action with its request or report as plain values.
pub enum ActionView {
    VerifyInnerProof,
    Wrap(Groth16WrapperParameters),
    Persist,
    Prove(ProofRequestView),
    Finish(ReportView),
    Ignore,
}

impl View for WrapReport {
    type V = ReportView;

    open spec fn view(&self) -> ReportView {
        ReportView {
            outcome: match self.outcome {
                Ok(pair) => Ok(pair@),
                Err(e) => Err(e),
            },
            persistence: self.persistence,
        }
    }
}

impl View for WrapJob {
    type V = JobView;

    open spec fn view(&self) -> JobView {
        match *self {
            WrapJob::AwaitingVerdict { persist, job_id } => JobView::AwaitingVerdict {
                persist,
                job_id: job_id@,
            },
            WrapJob::AwaitingArtifacts { persist, job_id } => JobView::AwaitingArtifacts {
                persist,
                job_id: job_id@,
            },
            WrapJob::AwaitingPersistence { artifacts, job_id } => JobView::AwaitingPersistence {
                artifacts: artifacts@,
                job_id: job_id@,
            },
            WrapJob::AwaitingReply { persistence } => JobView::AwaitingReply { persistence },
            WrapJob::Done => JobView::Done,
        }
    }
}

impl View for Event {
    type V = EventView;

    open spec fn view(&self) -> EventView {
        match *self {
            Event::Verified(holds) => EventView::Verified(holds),
            Event::Wrapped(artifacts) => EventView::Wrapped(artifacts@),
            Event::OuterProofFailed => EventView::OuterProofFailed,
            Event::NotSerialised => EventView::NotSerialised,
            Event::Stored(stored) => EventView::Stored(stored),
            Event::Replied { proof, verifying_key } => EventView::Replied {
                proof: proof@,
                verifying_key: verifying_key@,
            },
        }
    }
}

impl View for Action {
    type V = ActionView;

    open spec fn view(&self) -> ActionView {
        match *self {
            Action::VerifyInnerProof => ActionView::VerifyInnerProof,
            Action::Wrap(parameters) => ActionView::Wrap(parameters),
            Action::Persist => ActionView::Persist,
            Action::Prove(request) => ActionView::Prove(request@),
            Action::Finish(report) => ActionView::Finish(report@),
            Action::Ignore => ActionView::Ignore,
        }
    }
}

/// A wrap that ends without a proof.
pub open spec fn spec_fail(error: WrapError, persistence: Option<WrapError>) -> (
    JobView,
    ActionView,
) {
    (
        JobView::Done,
        ActionView::Finish(
            ReportView { outcome: Err::<SnarkPairView, WrapError>(error), persistence },
        ),
    )
}

/// What follows once the artifacts are at hand and stored as far as that was
/// asked for: the foreign prover is called, unless a value cannot cross the
/// boundary.
pub open spec fn spec_call_prover(
    artifacts: ArtifactsView,
    job_id: Seq<char>,
    persistence: Option<WrapError>,
) -> (JobView, ActionView) {
    match spec_proof_request(artifacts, job_id) {
        Ok(request) => (JobView::AwaitingReply { persistence }, ActionView::Prove(request)),
        Err(e) => spec_fail(WrapError::Marshalling(e), persistence),
    }
}

/// What a failure or success to store the artifacts is reported as.
pub open spec fn spec_persistence(stored: bool) -> Option<WrapError> {
    if stored {
        None
    } else {
        Some(WrapError::PersistenceFailure)
    }
}

/// Where a wrap starts.
pub open spec fn spec_start(persist: bool, job_id: Seq<char>) -> (JobView, ActionView) {
    (JobView::AwaitingVerdict { persist, job_id }, ActionView::VerifyInnerProof)
}

/// The machine: where the wrap stands after `event`, and what is to be done.
pub open spec fn spec_step(job: JobView, event: EventView) -> (JobView, ActionView) {
    match (job, event) {
        (JobView::AwaitingVerdict { persist, job_id }, EventView::Verified(holds)) => if holds {
            (
                JobView::AwaitingArtifacts { persist, job_id },
                ActionView::Wrap(Groth16WrapperParameters),
            )
        } else {
            spec_fail(WrapError::InvalidProof, None)
        },
        (JobView::AwaitingArtifacts { persist, job_id }, EventView::Wrapped(artifacts)) => if persist {
            (JobView::AwaitingPersistence { artifacts, job_id }, ActionView::Persist)
        } else {
            spec_call_prover(artifacts, job_id, None)
        },
        (JobView::AwaitingArtifacts { .. }, EventView::OuterProofFailed) => spec_fail(
            WrapError::InvalidProof,
            None,
        ),
        (JobView::AwaitingArtifacts { .. }, EventView::NotSerialised) => spec_fail(
            WrapError::Marshalling(DecodeError::Malformed),
            None,
        ),
        (
            JobView::AwaitingPersistence { artifacts, job_id },
            EventView::Stored(stored),
        ) => spec_call_prover(artifacts, job_id, spec_persistence(stored)),
        (
            JobView::AwaitingReply { persistence },
            EventView::Replied { proof, verifying_key },
        ) => (
            JobView::Done,
            ActionView::Finish(
                ReportView { outcome: spec_read_proof_reply(proof, verifying_key), persistence },
            ),
        ),
        _ => (job, ActionView::Ignore),
    }
}

fn fail(error: WrapError, persistence: Option<WrapError>) -> (r: (WrapJob, Action))
    ensures
        (r.0@, r.1@) == spec_fail(error, persistence),
{
    (WrapJob::Done, Action::Finish(WrapReport { outcome: Err(error), persistence }))
}

fn call_prover(artifacts: Artifacts, job_id: String, persistence: Option<WrapError>) -> (r: (
    WrapJob,
    Action,
))
    ensures
        (r.0@, r.1@) == spec_call_prover(artifacts@, job_id@, persistence),
{
    match encode_proof_request(&artifacts, job_id.as_str()) {
        Ok(request) => (WrapJob::AwaitingReply { persistence }, Action::Prove(request)),
        Err(e) => fail(WrapError::Marshalling(e), persistence),
    }
}

impl WrapJob {
    /// Starts a wrap under the name `job_id`. With `persist` set, the
    /// artifacts are to be stored before the foreign prover runs.
    pub fn start(persist: bool, job_id: &str) -> (r: (WrapJob, Action))
        ensures
            (r.0@, r.1@) == spec_start(persist, job_id@),
    {
        (WrapJob::AwaitingVerdict { persist, job_id: job_id.to_owned() }, Action::VerifyInnerProof)
    }

    /// Takes note of `event` and says what is to be done next.
    pub fn step(self, event: Event) -> (r: (WrapJob, Action))
        ensures
            (r.0@, r.1@) == spec_step(self@, event@),
    {
        match (self, event) {
            (WrapJob::AwaitingVerdict { persist, job_id }, Event::Verified(holds)) => {
                if holds {
                    (
                        WrapJob::AwaitingArtifacts { persist, job_id },
                        Action::Wrap(Groth16WrapperParameters),
                    )
                } else {
                    fail(WrapError::InvalidProof, None)
                }
            },
            (WrapJob::AwaitingArtifacts { persist, job_id }, Event::Wrapped(artifacts)) => {
                if persist {
                    (WrapJob::AwaitingPersistence { artifacts, job_id }, Action::Persist)
                } else {
                    call_prover(artifacts, job_id, None)
                }
            },
            (WrapJob::AwaitingArtifacts { .. }, Event::OuterProofFailed) => fail(
                WrapError::InvalidProof,
                None,
            ),
            (WrapJob::AwaitingArtifacts { .. }, Event::NotSerialised) => fail(
                WrapError::Marshalling(DecodeError::Malformed),
                None,
            ),
            (WrapJob::AwaitingPersistence { artifacts, job_id }, Event::Stored(stored)) => {
                let persistence = if stored {
                    None
                } else {
                    Some(WrapError::PersistenceFailure)
                };
                call_prover(artifacts, job_id, persistence)
            },
            (WrapJob::AwaitingReply { persistence }, Event::Replied { proof, verifying_key }) => {
                let outcome = read_proof_reply(proof.as_slice(), verifying_key.as_slice());
                (WrapJob::Done, Action::Finish(WrapReport { outcome, persistence }))
            },
            (job, _) => (job, Action::Ignore),
        }
    }
}

} // verus!
