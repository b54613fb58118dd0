//! What is handed to the foreign prover and verifier, and what is made of
//! their replies.
//!
//! Every value goes in as a buffer of its own (see [`crate::marshal`]). A
//! reply is taken for a proof or a key only if it reads as structured text:
//! whatever else came back is how the foreign side says that it failed. What
//! is taken is passed on byte for byte.

use vstd::prelude::*;
use vstd::utf8::encode_utf8;

use crate::error::{DecodeError, WrapError};
use crate::marshal::{
    decode, encode, lemma_decode_then_encode, lemma_decoded_text_is_the_payload,
    lemma_encode_injective, lemma_round_trip, lemma_text_terminator, spec_decode,
    spec_decode_text, spec_encode_text, TERMINATOR,
};

verus! {

/// The three outputs of wrapping, each as structured text: the shape of the
/// outer circuit, the outer proof, and the key that the outer proof is checked
/// with. All three come from one and the same outer circuit.
#[derive(Debug, Clone, PartialEq, Eq)]
pub struct Artifacts {
    pub common_data: String,
    pub proof: String,
    pub verifier_data: String,
}

/// The pairing-based proof and the key to check it with, as the foreign prover
/// returned them. Their inner layout is the prover's own.
#[derive(Debug, Clone, PartialEq, Eq)]
pub struct SnarkPair {
    pub proof: String,
    pub verifying_key: String,
}

/// The three artifacts, each in a buffer of its own. This is all that the
/// older proof entry point takes.
#[derive(Debug, Clone, PartialEq, Eq)]
pub struct ArtifactBuffers {
    pub common_data: Vec<u8>,
    pub proof: Vec<u8>,
    pub verifier_data: Vec<u8>,
}

/// What the proof entry point takes: the artifacts and the name of the job
/// that they belong to.
#[derive(Debug, Clone, PartialEq, Eq)]
pub struct ProofRequest {
    pub artifacts: ArtifactBuffers,
    pub job_id: Vec<u8>,
}

/// What the verify entry point takes.
#[derive(Debug, Clone, PartialEq, Eq)]
pub struct VerifyRequest {
    pub proof: Vec<u8>,
    pub verifying_key: Vec<u8>,
}

/// The artifacts as plain texts.
pub struct ArtifactsView {
    pub common_data: Seq<char>,
    pub proof: Seq<char>,
    pub verifier_data: Seq<char>,
}

/// A proof and its key as plain texts.
pub struct SnarkPairView {
    pub proof: Seq<char>,
    pub verifying_key: Seq<char>,
}

/// The contents of the three artifact buffers.
pub struct ArtifactBuffersView {
    pub common_data: Seq<u8>,
    pub proof: Seq<u8>,
    pub verifier_data: Seq<u8>,
}

/// The contents of the four buffers of a proof request.
pub struct ProofRequestView {
    pub artifacts: ArtifactBuffersView,
    pub job_id: Seq<u8>,
}

/// The contents of the two buffers of a verify request.
pub struct VerifyRequestView {
    pub proof: Seq<u8>,
    pub verifying_key: Seq<u8>,
}

impl View for Artifacts {
    type V = ArtifactsView;

    open spec fn view(&self) -> ArtifactsView {
        ArtifactsView {
            common_data: self.common_data@,
            proof: self.proof@,
            verifier_data: self.verifier_data@,
        }
    }
}

impl View for SnarkPair {
    type V = SnarkPairView;

    open spec fn view(&self) -> SnarkPairView {
        SnarkPairView { proof: self.proof@, verifying_key: self.verifying_key@ }
    }
}

impl View for ArtifactBuffers {
    type V = ArtifactBuffersView;

    open spec fn view(&self) -> ArtifactBuffersView {
        ArtifactBuffersView {
            common_data: self.common_data@,
            proof: self.proof@,
            verifier_data: self.verifier_data@,
        }
    }
}

impl View for ProofRequest {
    type V = ProofRequestView;

    open spec fn view(&self) -> ProofRequestView {
        ProofRequestView { artifacts: self.artifacts@, job_id: self.job_id@ }
    }
}

impl View for VerifyRequest {
    type V = VerifyRequestView;

    open spec fn view(&self) -> VerifyRequestView {
        VerifyRequestView { proof: self.proof@, verifying_key: self.verifying_key@ }
    }
}

/// The buffers that carry the artifacts. One artifact that holds the
/// terminator spoils them all.
pub open spec fn spec_encode_artifacts(artifacts: ArtifactsView) -> Result<
    ArtifactBuffersView,
    DecodeError,
> {
    match (
        spec_encode_text(artifacts.common_data),
        spec_encode_text(artifacts.proof),
        spec_encode_text(artifacts.verifier_data),
    ) {
        (Ok(common_data), Ok(proof), Ok(verifier_data)) => Ok(
            ArtifactBuffersView { common_data, proof, verifier_data },
        ),
        _ => Err(DecodeError::IllegalByte),
    }
}

/// The request that carries the artifacts under the job's name. The name goes
/// in as it was given.
pub open spec fn spec_proof_request(artifacts: ArtifactsView, job_id: Seq<char>) -> Result<
    ProofRequestView,
    DecodeError,
> {
    match (spec_encode_artifacts(artifacts), spec_encode_text(job_id)) {
        (Ok(artifacts), Ok(job_id)) => Ok(ProofRequestView { artifacts, job_id }),
        _ => Err(DecodeError::IllegalByte),
    }
}

/// The request that asks whether `proof` holds under `verifying_key`.
pub open spec fn spec_verify_request(proof: Seq<char>, verifying_key: Seq<char>) -> Result<
    VerifyRequestView,
    DecodeError,
> {
    match (spec_encode_text(proof), spec_encode_text(verifying_key)) {
        (Ok(proof), Ok(verifying_key)) => Ok(VerifyRequestView { proof, verifying_key }),
        _ => Err(DecodeError::IllegalByte),
    }
}

/// Whether `text` is one JSON value, as `serde_json::from_str` reads it.
pub uninterp spec fn parses_as_json(text: Seq<char>) -> bool;

/// What a text that came back is taken for, once it is known whether it reads
/// as structured text.
pub open spec fn spec_judge_reply(text: Seq<char>, structured: bool) -> Result<
    Seq<char>,
    WrapError,
> {
    if structured {
        Ok(text)
    } else {
        Err(WrapError::ExternalFailure)
    }
}

/// What one returned buffer is taken for.
pub open spec fn spec_read_reply(buffer: Seq<u8>) -> Result<Seq<char>, WrapError> {
    match spec_decode_text(buffer) {
        Ok(text) => spec_judge_reply(text, parses_as_json(text)),
        Err(e) => Err(WrapError::Marshalling(e)),
    }
}

/// What the two buffers of the proof entry point are taken for. A buffer
/// that cannot be read makes the whole reply malformed, whatever the other
/// one holds; only a reply that can be read is judged.
pub open spec fn spec_read_proof_reply(proof: Seq<u8>, verifying_key: Seq<u8>) -> Result<
    SnarkPairView,
    WrapError,
> {
    match (spec_decode_text(proof), spec_decode_text(verifying_key)) {
        (Ok(proof), Ok(verifying_key)) => match (
            spec_judge_reply(proof, parses_as_json(proof)),
            spec_judge_reply(verifying_key, parses_as_json(verifying_key)),
        ) {
            (Ok(proof), Ok(verifying_key)) => Ok(SnarkPairView { proof, verifying_key }),
            (Err(e), _) => Err(e),
            (_, Err(e)) => Err(e),
        },
        (Err(e), _) => Err(WrapError::Marshalling(e)),
        (_, Err(e)) => Err(WrapError::Marshalling(e)),
    }
}

/// A reply with a buffer that has no terminator, or whose payload is not
/// UTF-8, is malformed: it is never taken for a proof, and never for a
/// failure of the foreign prover either.
pub proof fn lemma_unreadable_reply_is_malformed(proof: Seq<u8>, verifying_key: Seq<u8>)
    requires
        spec_decode_text(proof) is Err || spec_decode_text(verifying_key) is Err,
    ensures
        spec_read_proof_reply(proof, verifying_key) == Err::<SnarkPairView, WrapError>(
            WrapError::Marshalling(DecodeError::Malformed),
        ),
{
}

/// A proof and a key are passed on as they came: their texts are the payloads
/// of the two buffers byte for byte, and the request that later asks the
/// foreign verifier about them carries those very bytes again.
pub proof fn lemma_pair_passes_through(proof: Seq<u8>, verifying_key: Seq<u8>)
    requires
        spec_read_proof_reply(proof, verifying_key) is Ok,
    ensures
        ({
            let pair = spec_read_proof_reply(proof, verifying_key)->Ok_0;
            &&& spec_decode(proof) == Ok::<Seq<u8>, DecodeError>(encode_utf8(pair.proof))
            &&& spec_decode(verifying_key) == Ok::<Seq<u8>, DecodeError>(
                encode_utf8(pair.verifying_key),
            )
            &&& spec_verify_request(pair.proof, pair.verifying_key) == Ok::<
                VerifyRequestView,
                DecodeError,
            >(
                VerifyRequestView {
                    proof: spec_decode(proof)->Ok_0.push(TERMINATOR),
                    verifying_key: spec_decode(verifying_key)->Ok_0.push(TERMINATOR),
                },
            )
        }),
{
    lemma_decoded_text_is_the_payload(proof);
    lemma_decoded_text_is_the_payload(verifying_key);
    lemma_decode_then_encode(proof);
    lemma_decode_then_encode(verifying_key);
}

/// Each artifact buffer follows from its own text alone: two requests whose
/// artifacts agree in one text agree in the buffer that carries it, whatever
/// the other texts and the job names are.
pub proof fn lemma_buffers_follow_their_texts(
    artifacts: ArtifactsView,
    job_id: Seq<char>,
    other_artifacts: ArtifactsView,
    other_job_id: Seq<char>,
)
    requires
        spec_proof_request(artifacts, job_id) is Ok,
        spec_proof_request(other_artifacts, other_job_id) is Ok,
    ensures
        ({
            let one = spec_proof_request(artifacts, job_id)->Ok_0;
            let other = spec_proof_request(other_artifacts, other_job_id)->Ok_0;
            &&& artifacts.common_data == other_artifacts.common_data
                <==> one.artifacts.common_data == other.artifacts.common_data
            &&& artifacts.proof == other_artifacts.proof <==> one.artifacts.proof
                == other.artifacts.proof
            &&& artifacts.verifier_data == other_artifacts.verifier_data
                <==> one.artifacts.verifier_data == other.artifacts.verifier_data
            &&& job_id == other_job_id <==> one.job_id == other.job_id
        }),
{
    if spec_encode_text(artifacts.common_data) == spec_encode_text(other_artifacts.common_data) {
        lemma_encode_injective(artifacts.common_data, other_artifacts.common_data);
    }
    if spec_encode_text(artifacts.proof) == spec_encode_text(other_artifacts.proof) {
        lemma_encode_injective(artifacts.proof, other_artifacts.proof);
    }
    if spec_encode_text(artifacts.verifier_data) == spec_encode_text(
        other_artifacts.verifier_data,
    ) {
        lemma_encode_injective(artifacts.verifier_data, other_artifacts.verifier_data);
    }
    if spec_encode_text(job_id) == spec_encode_text(other_job_id) {
        lemma_encode_injective(job_id, other_job_id);
    }
}

/// A request is built exactly for values that hold no character with code 0:
/// one such character, in an artifact or in the job name, and nothing is
/// handed to the foreign prover.
pub proof fn lemma_request_refused_exactly(artifacts: ArtifactsView, job_id: Seq<char>)
    ensures
        spec_proof_request(artifacts, job_id) is Ok <==> !artifacts.common_data.contains('\0')
            && !artifacts.proof.contains('\0') && !artifacts.verifier_data.contains('\0')
            && !job_id.contains('\0'),
        spec_proof_request(artifacts, job_id) is Err ==> spec_proof_request(artifacts, job_id)
            == Err::<ProofRequestView, DecodeError>(DecodeError::IllegalByte),
{
    lemma_text_terminator(artifacts.common_data);
    lemma_text_terminator(artifacts.proof);
    lemma_text_terminator(artifacts.verifier_data);
    lemma_text_terminator(job_id);
}

/// What a request carries is what it was built from: read back, each of its
/// buffers gives the artifact that went in, and the name buffer gives the job
/// name as it was given.
pub proof fn lemma_request_reads_back(artifacts: ArtifactsView, job_id: Seq<char>)
    requires
        spec_proof_request(artifacts, job_id) is Ok,
    ensures
        ({
            let request = spec_proof_request(artifacts, job_id)->Ok_0;
            &&& spec_decode_text(request.artifacts.common_data) == Ok::<Seq<char>, DecodeError>(
                artifacts.common_data,
            )
            &&& spec_decode_text(request.artifacts.proof) == Ok::<Seq<char>, DecodeError>(
                artifacts.proof,
            )
            &&& spec_decode_text(request.artifacts.verifier_data) == Ok::<Seq<char>, DecodeError>(
                artifacts.verifier_data,
            )
            &&& spec_decode_text(request.job_id) == Ok::<Seq<char>, DecodeError>(job_id)
        }),
{
    lemma_request_refused_exactly(artifacts, job_id);
    lemma_round_trip(artifacts.common_data);
    lemma_round_trip(artifacts.proof);
    lemma_round_trip(artifacts.verifier_data);
    lemma_round_trip(job_id);
}

/// Two wraps hand the same request to the foreign prover only if they have
/// the same artifacts and the same job name: jobs under different names never
/// share a request.
pub proof fn lemma_request_injective(
    artifacts: ArtifactsView,
    job_id: Seq<char>,
    other_artifacts: ArtifactsView,
    other_job_id: Seq<char>,
)
    requires
        spec_proof_request(artifacts, job_id) is Ok,
        spec_proof_request(artifacts, job_id) == spec_proof_request(other_artifacts, other_job_id),
    ensures
        artifacts == other_artifacts,
        job_id == other_job_id,
{
    lemma_encode_injective(artifacts.common_data, other_artifacts.common_data);
    lemma_encode_injective(artifacts.proof, other_artifacts.proof);
    lemma_encode_injective(artifacts.verifier_data, other_artifacts.verifier_data);
    lemma_encode_injective(job_id, other_job_id);
}

/// Puts each artifact into a buffer of its own.
pub fn encode_artifacts(artifacts: &Artifacts) -> (r: Result<ArtifactBuffers, DecodeError>)
    ensures
        match r {
            Ok(buffers) => spec_encode_artifacts(artifacts@) == Ok::<
                ArtifactBuffersView,
                DecodeError,
            >(buffers@),
            Err(e) => spec_encode_artifacts(artifacts@) == Err::<ArtifactBuffersView, DecodeError>(
                e,
            ),
        },
{
    let common_data = encode(artifacts.common_data.as_str());
    let proof = encode(artifacts.proof.as_str());
    let verifier_data = encode(artifacts.verifier_data.as_str());
    match (common_data, proof, verifier_data) {
        (Ok(common_data), Ok(proof), Ok(verifier_data)) => Ok(
            ArtifactBuffers { common_data, proof, verifier_data },
        ),
        _ => Err(DecodeError::IllegalByte),
    }
}

/// Builds what the proof entry point takes.
pub fn encode_proof_request(artifacts: &Artifacts, job_id: &str) -> (r: Result<
    ProofRequest,
    DecodeError,
>)
    ensures
        match r {
            Ok(request) => spec_proof_request(artifacts@, job_id@) == Ok::<
                ProofRequestView,
                DecodeError,
            >(request@),
            Err(e) => spec_proof_request(artifacts@, job_id@) == Err::<
                ProofRequestView,
                DecodeError,
            >(e),
        },
{
    match (encode_artifacts(artifacts), encode(job_id)) {
        (Ok(artifacts), Ok(job_id)) => Ok(ProofRequest { artifacts, job_id }),
        _ => Err(DecodeError::IllegalByte),
    }
}

/// Builds what the verify entry point takes.
pub fn encode_verify_request(proof: &str, verifying_key: &str) -> (r: Result<
    VerifyRequest,
    DecodeError,
>)
    ensures
        match r {
            Ok(request) => spec_verify_request(proof@, verifying_key@) == Ok::<
                VerifyRequestView,
                DecodeError,
            >(request@),
            Err(e) => spec_verify_request(proof@, verifying_key@) == Err::<
                VerifyRequestView,
                DecodeError,
            >(e),
        },
{
    match (encode(proof), encode(verifying_key)) {
        (Ok(proof), Ok(verifying_key)) => Ok(VerifyRequest { proof, verifying_key }),
        _ => Err(DecodeError::IllegalByte),
    }
}

/// Asks `serde_json::from_str` whether `text` is one JSON value. The answer
/// depends on the text alone; nothing more is claimed of it.
#[verifier::external_body]
fn is_structured_text(text: &str) -> (ok: bool)
    ensures
        ok == parses_as_json(text@),
{
    serde_json::from_str::<serde_json::Value>(text).is_ok()
}

/// Takes a text that came back for a proof or a key, or for the foreign
/// side's way of saying that it failed.
pub fn judge_reply(text: String, structured: bool) -> (r: Result<String, WrapError>)
    ensures
        match r {
            Ok(kept) => spec_judge_reply(text@, structured) == Ok::<Seq<char>, WrapError>(kept@),
            Err(e) => spec_judge_reply(text@, structured) == Err::<Seq<char>, WrapError>(e),
        },
{
    if structured {
        Ok(text)
    } else {
        Err(WrapError::ExternalFailure)
    }
}

/// Reads one returned buffer. This is the whole reply of the older proof
/// entry point.
pub fn read_reply(buffer: &[u8]) -> (r: Result<String, WrapError>)
    ensures
        match r {
            Ok(text) => spec_read_reply(buffer@) == Ok::<Seq<char>, WrapError>(text@),
            Err(e) => spec_read_reply(buffer@) == Err::<Seq<char>, WrapError>(e),
        },
{
    match decode(buffer) {
        Ok(text) => {
            let structured = is_structured_text(text.as_str());
            judge_reply(text, structured)
        },
        Err(e) => Err(WrapError::Marshalling(e)),
    }
}

/// Reads the two buffers that the proof entry point returned.
pub fn read_proof_reply(proof: &[u8], verifying_key: &[u8]) -> (r: Result<SnarkPair, WrapError>)
    ensures
        match r {
            Ok(pair) => spec_read_proof_reply(proof@, verifying_key@) == Ok::<
                SnarkPairView,
                WrapError,
            >(pair@),
            Err(e) => spec_read_proof_reply(proof@, verifying_key@) == Err::<
                SnarkPairView,
                WrapError,
            >(e),
        },
{
    match (decode(proof), decode(verifying_key)) {
        (Ok(proof), Ok(verifying_key)) => {
            let proof_structured = is_structured_text(proof.as_str());
            let key_structured = is_structured_text(verifying_key.as_str());
            match (
                judge_reply(proof, proof_structured),
                judge_reply(verifying_key, key_structured),
            ) {
                (Ok(proof), Ok(verifying_key)) => Ok(SnarkPair { proof, verifying_key }),
                (Err(e), _) => Err(e),
                (_, Err(e)) => Err(e),
            }
        },
        (Err(e), _) => Err(WrapError::Marshalling(e)),
        (_, Err(e)) => Err(WrapError::Marshalling(e)),
    }
}

} // verus!
