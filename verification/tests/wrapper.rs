use groth16_wrapper::bridge::{encode_proof_request, Artifacts, SnarkPair};
use groth16_wrapper::error::{DecodeError, WrapError};
use groth16_wrapper::parameters::{Groth16WrapperParameters, D};
use groth16_wrapper::wrapper::{Action, Event, WrapJob, WrapReport};

const SNARK_PROOF: &str = r#"{"Ar":{"X":"1","Y":"2"},"Commitments":[],"CommitmentPok":{"X":0,"Y":0}}"#;
const SNARK_KEY: &str = r#"{"CommitmentKey":"007e","alpha_g1":["06","05"]}"#;

fn artifacts() -> Artifacts {
    Artifacts {
        common_data: String::from("{\"degree_bits\":12}"),
        proof: String::from("{\"public_inputs\":[\"0\",\"1\"]}"),
        verifier_data: String::from("{\"circuit_digest\":\"7\"}"),
    }
}

fn reply() -> Event {
    let mut proof = SNARK_PROOF.as_bytes().to_vec();
    proof.push(0);
    let mut verifying_key = SNARK_KEY.as_bytes().to_vec();
    verifying_key.push(0);
    Event::Replied { proof, verifying_key }
}

fn pair() -> SnarkPair {
    SnarkPair { proof: String::from(SNARK_PROOF), verifying_key: String::from(SNARK_KEY) }
}

fn finished(outcome: Result<SnarkPair, WrapError>, persistence: Option<WrapError>) -> Action {
    Action::Finish(WrapReport { outcome, persistence })
}

/// Drives one wrap with collaborators that all do their part.
fn run_wrap(save_wrapped_data_path: Option<&str>, id: &str) -> Result<(String, String), WrapError> {
    let (mut job, mut action) = WrapJob::start(save_wrapped_data_path.is_some(), id);
    let mut steps = 0;
    loop {
        steps += 1;
        assert!(steps < 10);
        let event = match action {
            Action::VerifyInnerProof => Event::Verified(true),
            Action::Wrap(_) => Event::Wrapped(artifacts()),
            Action::Persist => {
                assert!(save_wrapped_data_path.is_some());
                Event::Stored(true)
            }
            Action::Prove(request) => {
                assert_eq!(request, encode_proof_request(&artifacts(), id).unwrap());
                reply()
            }
            Action::Finish(report) => {
                assert_eq!(job, WrapJob::Done);
                assert_eq!(report.persistence, None);
                return report.outcome.map(|pair| (pair.proof, pair.verifying_key));
            }
            Action::Ignore => unreachable!(),
        };
        (job, action) = job.step(event);
    }
}

#[test]
fn test_setup_once() {
    let first = run_wrap(Some("../testdata/0"), "/0/").unwrap();
    let second = run_wrap(Some("../testdata/0"), "/0/").unwrap();
    let third = run_wrap(Some("../testdata/0"), "/0/").unwrap();
    assert_eq!(first, (String::from(SNARK_PROOF), String::from(SNARK_KEY)));
    assert_eq!(first, second);
    assert_eq!(second, third);
}

#[test]
fn wrap_without_a_keystore_skips_storing() {
    let (job, action) = WrapJob::start(false, "/0/");
    assert_eq!(action, Action::VerifyInnerProof);
    assert_eq!(job, WrapJob::AwaitingVerdict { persist: false, job_id: String::from("/0/") });
    let (job, action) = job.step(Event::Verified(true));
    assert_eq!(action, Action::Wrap(Groth16WrapperParameters));
    assert_eq!(job, WrapJob::AwaitingArtifacts { persist: false, job_id: String::from("/0/") });
    let (job, action) = job.step(Event::Wrapped(artifacts()));
    assert_eq!(action, Action::Prove(encode_proof_request(&artifacts(), "/0/").unwrap()));
    assert_eq!(job, WrapJob::AwaitingReply { persistence: None });
    let (job, action) = job.step(reply());
    assert_eq!(action, finished(Ok(pair()), None));
    assert_eq!(job, WrapJob::Done);
}

#[test]
fn wrap_with_a_keystore_stores_before_it_proves() {
    let (job, _) = WrapJob::start(true, "/1/");
    let (job, action) = job.step(Event::Verified(true));
    assert_eq!(action, Action::Wrap(Groth16WrapperParameters));
    let (job, action) = job.step(Event::Wrapped(artifacts()));
    assert_eq!(action, Action::Persist);
    assert_eq!(
        job,
        WrapJob::AwaitingPersistence { artifacts: artifacts(), job_id: String::from("/1/") }
    );
    let (job, action) = job.step(Event::Stored(true));
    assert_eq!(action, Action::Prove(encode_proof_request(&artifacts(), "/1/").unwrap()));
    let (job, action) = job.step(reply());
    assert_eq!(action, finished(Ok(pair()), None));
    assert_eq!(job, WrapJob::Done);
}

#[test]
fn proof_that_does_not_hold_ends_the_wrap_at_once() {
    for persist in [false, true] {
        let (job, _) = WrapJob::start(persist, "/0/");
        let (job, action) = job.step(Event::Verified(false));
        assert_eq!(action, finished(Err(WrapError::InvalidProof), None));
        assert_eq!(job, WrapJob::Done);
        let (job, action) = job.step(Event::Wrapped(artifacts()));
        assert_eq!(action, Action::Ignore);
        let (job, action) = job.step(Event::Stored(true));
        assert_eq!(action, Action::Ignore);
        let (job, action) = job.step(reply());
        assert_eq!(action, Action::Ignore);
        assert_eq!(job, WrapJob::Done);
    }
}

#[test]
fn outer_proof_that_fails_is_an_invalid_proof() {
    let (job, _) = WrapJob::start(true, "/0/");
    let (job, _) = job.step(Event::Verified(true));
    let (job, action) = job.step(Event::OuterProofFailed);
    assert_eq!(action, finished(Err(WrapError::InvalidProof), None));
    assert_eq!(job, WrapJob::Done);
}

#[test]
fn artifacts_that_cannot_be_written_are_malformed() {
    let (job, _) = WrapJob::start(false, "/0/");
    let (job, _) = job.step(Event::Verified(true));
    let (job, action) = job.step(Event::NotSerialised);
    assert_eq!(action, finished(Err(WrapError::Marshalling(DecodeError::Malformed)), None));
    assert_eq!(job, WrapJob::Done);
}

#[test]
fn failure_to_store_is_reported_beside_the_proof() {
    let (job, _) = WrapJob::start(true, "/0/");
    let (job, _) = job.step(Event::Verified(true));
    let (job, _) = job.step(Event::Wrapped(artifacts()));
    let (job, action) = job.step(Event::Stored(false));
    assert_eq!(action, Action::Prove(encode_proof_request(&artifacts(), "/0/").unwrap()));
    assert_eq!(job, WrapJob::AwaitingReply { persistence: Some(WrapError::PersistenceFailure) });
    let (job, action) = job.step(reply());
    assert_eq!(action, finished(Ok(pair()), Some(WrapError::PersistenceFailure)));
    assert_eq!(job, WrapJob::Done);
}

#[test]
fn failure_to_store_is_reported_beside_another_failure() {
    let (job, _) = WrapJob::start(true, "/0/");
    let (job, _) = job.step(Event::Verified(true));
    let (job, _) = job.step(Event::Wrapped(artifacts()));
    let (job, _) = job.step(Event::Stored(false));
    let (_, action) = job.step(Event::Replied {
        proof: b"could not prove\0".to_vec(),
        verifying_key: b"\0".to_vec(),
    });
    assert_eq!(
        action,
        finished(Err(WrapError::ExternalFailure), Some(WrapError::PersistenceFailure))
    );
}

#[test]
fn job_name_with_a_terminator_never_reaches_the_prover() {
    let (job, _) = WrapJob::start(false, "/0\0/");
    let (job, _) = job.step(Event::Verified(true));
    let (job, action) = job.step(Event::Wrapped(artifacts()));
    assert_eq!(action, finished(Err(WrapError::Marshalling(DecodeError::IllegalByte)), None));
    assert_eq!(job, WrapJob::Done);

    let (job, _) = WrapJob::start(true, "/0\0/");
    let (job, _) = job.step(Event::Verified(true));
    let (job, action) = job.step(Event::Wrapped(artifacts()));
    assert_eq!(action, Action::Persist);
    let (job, action) = job.step(Event::Stored(false));
    assert_eq!(
        action,
        finished(
            Err(WrapError::Marshalling(DecodeError::IllegalByte)),
            Some(WrapError::PersistenceFailure)
        )
    );
    assert_eq!(job, WrapJob::Done);
}

#[test]
fn artifact_with_a_terminator_never_reaches_the_prover() {
    let mut spoiled = artifacts();
    spoiled.verifier_data.push('\0');
    let (job, _) = WrapJob::start(false, "/0/");
    let (job, _) = job.step(Event::Verified(true));
    let (job, action) = job.step(Event::Wrapped(spoiled));
    assert_eq!(action, finished(Err(WrapError::Marshalling(DecodeError::IllegalByte)), None));
    assert_eq!(job, WrapJob::Done);
}

#[test]
fn reply_that_is_no_proof_is_an_external_failure() {
    let (job, _) = WrapJob::start(false, "/0/");
    let (job, _) = job.step(Event::Verified(true));
    let (job, _) = job.step(Event::Wrapped(artifacts()));
    let (job, action) = job.step(Event::Replied {
        proof: b"panic: constraint not satisfied\0".to_vec(),
        verifying_key: b"{}\0".to_vec(),
    });
    assert_eq!(action, finished(Err(WrapError::ExternalFailure), None));
    assert_eq!(job, WrapJob::Done);
}

#[test]
fn reply_without_a_terminator_is_malformed() {
    let (job, _) = WrapJob::start(false, "/0/");
    let (job, _) = job.step(Event::Verified(true));
    let (job, _) = job.step(Event::Wrapped(artifacts()));
    let (job, action) = job.step(Event::Replied {
        proof: b"{}".to_vec(),
        verifying_key: b"{}\0".to_vec(),
    });
    assert_eq!(action, finished(Err(WrapError::Marshalling(DecodeError::Malformed)), None));
    assert_eq!(job, WrapJob::Done);
}

#[test]
fn reply_that_is_not_utf8_ends_the_wrap_as_malformed() {
    let (job, _) = WrapJob::start(false, "/0/");
    let (job, _) = job.step(Event::Verified(true));
    let (job, _) = job.step(Event::Wrapped(artifacts()));
    let (job, action) = job.step(Event::Replied {
        proof: b"\xff\0".to_vec(),
        verifying_key: b"V\0".to_vec(),
    });
    assert_eq!(action, finished(Err(WrapError::Marshalling(DecodeError::Malformed)), None));
    assert_eq!(job, WrapJob::Done);
}

#[test]
fn key_without_a_terminator_is_malformed_whatever_the_proof_says() {
    let (job, _) = WrapJob::start(false, "/0/");
    let (job, _) = job.step(Event::Verified(true));
    let (job, _) = job.step(Event::Wrapped(artifacts()));
    let (_, action) = job.step(Event::Replied {
        proof: b"could not prove\0".to_vec(),
        verifying_key: b"{}".to_vec(),
    });
    assert_eq!(action, finished(Err(WrapError::Marshalling(DecodeError::Malformed)), None));
}

#[test]
fn shape_and_key_reach_the_prover_the_same_under_any_name() {
    let mut other = artifacts();
    other.proof = String::from("{\"public_inputs\":[\"1\",\"0\"]}");
    let mut requests = Vec::new();
    for (persist, id, wrapped) in [(true, "/0/", artifacts()), (false, "/1/", other)] {
        let (job, _) = WrapJob::start(persist, id);
        let (job, _) = job.step(Event::Verified(true));
        let (job, mut action) = job.step(Event::Wrapped(wrapped));
        if persist {
            assert_eq!(action, Action::Persist);
            action = job.step(Event::Stored(true)).1;
        }
        match action {
            Action::Prove(request) => requests.push(request),
            other => panic!("{:?}", other),
        }
    }
    assert_eq!(requests[0].artifacts.common_data, requests[1].artifacts.common_data);
    assert_eq!(requests[0].artifacts.verifier_data, requests[1].artifacts.verifier_data);
    assert_eq!(requests[0].artifacts.common_data, b"{\"degree_bits\":12}\0".to_vec());
    assert_eq!(requests[0].artifacts.verifier_data, b"{\"circuit_digest\":\"7\"}\0".to_vec());
    assert_ne!(requests[0].artifacts.proof, requests[1].artifacts.proof);
    assert_ne!(requests[0].job_id, requests[1].job_id);
}

#[test]
fn events_out_of_turn_change_nothing() {
    let (job, _) = WrapJob::start(true, "/0/");
    let (job, action) = job.step(reply());
    assert_eq!(action, Action::Ignore);
    let (job, action) = job.step(Event::Stored(false));
    assert_eq!(action, Action::Ignore);
    let (job, action) = job.step(Event::Wrapped(artifacts()));
    assert_eq!(action, Action::Ignore);
    let (job, action) = job.step(Event::OuterProofFailed);
    assert_eq!(action, Action::Ignore);
    assert_eq!(job, WrapJob::AwaitingVerdict { persist: true, job_id: String::from("/0/") });
    let (job, _) = job.step(Event::Verified(true));
    let (job, action) = job.step(Event::Verified(false));
    assert_eq!(action, Action::Ignore);
    let (job, _) = job.step(Event::Wrapped(artifacts()));
    let (job, action) = job.step(Event::Wrapped(artifacts()));
    assert_eq!(action, Action::Ignore);
    let (job, action) = job.step(Event::NotSerialised);
    assert_eq!(action, Action::Ignore);
    let (job, _) = job.step(Event::Stored(true));
    let (job, action) = job.step(Event::Stored(false));
    assert_eq!(action, Action::Ignore);
    assert_eq!(job, WrapJob::AwaitingReply { persistence: None });
    let (job, action) = job.step(reply());
    assert_eq!(action, finished(Ok(pair()), None));
    let (job, action) = job.step(reply());
    assert_eq!(action, Action::Ignore);
    assert_eq!(job, WrapJob::Done);
}

#[test]
fn jobs_under_different_names_do_not_meet() {
    let (first, _) = WrapJob::start(true, "/0/");
    let (second, _) = WrapJob::start(true, "/1/");
    let (first, _) = first.step(Event::Verified(true));
    let (second, _) = second.step(Event::Verified(false));
    assert_eq!(second, WrapJob::Done);
    let (first, _) = first.step(Event::Wrapped(artifacts()));
    let (_, action) = first.step(Event::Stored(true));
    match action {
        Action::Prove(request) => assert_eq!(request.job_id, b"/0/\0".to_vec()),
        other => panic!("{:?}", other),
    }
}

#[test]
fn outer_circuit_works_over_the_quadratic_extension() {
    assert_eq!(D, 2);
    assert_eq!(Groth16WrapperParameters, Groth16WrapperParameters.clone());
    assert_eq!(format!("{:?}", Groth16WrapperParameters), "Groth16WrapperParameters");
}
