//! What holds of every wrap, whatever it is told and in whatever order.

use vstd::prelude::*;
use vstd::utf8::encode_utf8;

use crate::bridge::{
    lemma_pair_passes_through, lemma_request_reads_back,
    spec_proof_request, spec_read_proof_reply, spec_verify_request, ArtifactsView,
    ProofRequestView, VerifyRequestView,
};
use crate::marshal::{lemma_encode_refuses_exactly, spec_decode, spec_decode_text, TERMINATOR};
use crate::error::{DecodeError, WrapError};
use crate::wrapper::{
    spec_persistence, spec_start, spec_step, ActionView, EventView, JobView, ReportView,
};

verus! {

/// Where a wrap that was started with `persist` and `job_id` stands after
/// `events`, and all that the machine said on the way: first its opening
/// action, then its answer to each event.
pub open spec fn spec_run(persist: bool, job_id: Seq<char>, events: Seq<EventView>) -> (
    JobView,
    Seq<ActionView>,
)
    decreases events.len(),
{
    if events.len() == 0 {
        (spec_start(persist, job_id).0, seq![spec_start(persist, job_id).1])
    } else {
        let (job, actions) = spec_run(persist, job_id, events.drop_last());
        let (next, action) = spec_step(job, events.last());
        (next, actions.push(action))
    }
}

/// The inner proof was found to hold.
pub open spec fn seen_verified(events: Seq<EventView>) -> bool {
    events.contains(EventView::Verified(true))
}

/// An attempt to store the artifacts has ended, well or not.
pub open spec fn seen_stored(events: Seq<EventView>) -> bool {
    events.contains(EventView::Stored(true)) || events.contains(EventView::Stored(false))
}

/// The outer circuit was proved and gave these artifacts.
pub open spec fn seen_wrapped(events: Seq<EventView>, artifacts: ArtifactsView) -> bool {
    events.contains(EventView::Wrapped(artifacts))
}

/// `request` may go to the foreign prover after `prior`: the inner proof was
/// found to hold, the artifacts were stored as far as that was asked for, and
/// the request carries the artifacts of one outer circuit of this wrap under
/// the name that the wrap was started with.
pub open spec fn request_in_order(
    persist: bool,
    job_id: Seq<char>,
    prior: Seq<EventView>,
    request: ProofRequestView,
) -> bool {
    &&& seen_verified(prior)
    &&& persist ==> seen_stored(prior)
    &&& exists|artifacts: ArtifactsView| #[trigger]
        seen_wrapped(prior, artifacts) && spec_proof_request(artifacts, job_id) == Ok::<
            ProofRequestView,
            DecodeError,
        >(request)
}

/// The foreign prover has not been called yet and the wrap has not ended.
pub open spec fn is_early(job: JobView) -> bool {
    job is AwaitingVerdict || job is AwaitingArtifacts || job is AwaitingPersistence
}

spec fn state_inv(persist: bool, job_id: Seq<char>, events: Seq<EventView>, job: JobView) -> bool {
    match job {
        JobView::AwaitingVerdict { persist: p, job_id: j } => p == persist && j == job_id,
        JobView::AwaitingArtifacts { persist: p, job_id: j } => p == persist && j == job_id
            && seen_verified(events),
        JobView::AwaitingPersistence { artifacts, job_id: j } => persist && j == job_id
            && seen_verified(events) && seen_wrapped(events, artifacts),
        _ => true,
    }
}

spec fn actions_inv(
    persist: bool,
    job_id: Seq<char>,
    events: Seq<EventView>,
    job: JobView,
    actions: Seq<ActionView>,
) -> bool {
    &&& actions.len() == events.len() + 1
    &&& forall|k: int|
        0 <= k < actions.len() && #[trigger] actions[k] is Prove ==> request_in_order(
            persist,
            job_id,
            events.take(k),
            actions[k]->Prove_0,
        )
    &&& is_early(job) ==> forall|k: int|
        0 <= k < actions.len() ==> !(#[trigger] actions[k] is Prove) && !(actions[k] is Finish)
    &&& job is AwaitingReply ==> forall|k: int|
        0 <= k < actions.len() ==> !(#[trigger] actions[k] is Finish)
    &&& forall|k1: int, k2: int|
        0 <= k1 < actions.len() && 0 <= k2 < actions.len() && #[trigger] actions[k1] is Prove
            && #[trigger] actions[k2] is Prove ==> k1 == k2
    &&& forall|k: int, m: int|
        0 <= k < m < actions.len() && #[trigger] actions[k] is Finish ==> #[trigger] actions[m]
            is Ignore
}

proof fn lemma_seen_grows(events: Seq<EventView>)
    requires
        events.len() > 0,
    ensures
        forall|e: EventView| #[trigger] events.drop_last().contains(e) ==> events.contains(e),
        seen_verified(events.drop_last()) ==> seen_verified(events),
        seen_stored(events.drop_last()) ==> seen_stored(events),
        forall|artifacts: ArtifactsView| #[trigger]
            seen_wrapped(events.drop_last(), artifacts) ==> seen_wrapped(events, artifacts),
        events.contains(events.last()),
{
    let before = events.drop_last();
    assert forall|e: EventView| before.contains(e) implies events.contains(e) by {
        let i = choose|i: int| 0 <= i < before.len() && before[i] == e;
        assert(events[i] == e);
    }
    assert(events[events.len() - 1] == events.last());
}

proof fn lemma_run_invariant(persist: bool, job_id: Seq<char>, events: Seq<EventView>)
    ensures
        state_inv(persist, job_id, events, spec_run(persist, job_id, events).0),
        actions_inv(
            persist,
            job_id,
            events,
            spec_run(persist, job_id, events).0,
            spec_run(persist, job_id, events).1,
        ),
    decreases events.len(),
{
    if events.len() > 0 {
        let before = events.drop_last();
        let event = events.last();
        let (job, said) = spec_run(persist, job_id, before);
        let (next, action) = spec_step(job, event);
        let actions = said.push(action);
        let n = events.len() as int;
        lemma_run_invariant(persist, job_id, before);
        lemma_seen_grows(events);
        assert(spec_run(persist, job_id, events) == (next, actions));
        assert(events.take(n) =~= events);
        assert forall|k: int| 0 <= k < actions.len() && #[trigger] actions[k] is Prove implies request_in_order(
            persist,
            job_id,
            events.take(k),
            actions[k]->Prove_0,
        ) by {
            if k < n {
                assert(said[k] is Prove);
                assert(events.take(k) =~= before.take(k));
            } else {
                assert(action is Prove);
                match job {
                    JobView::AwaitingArtifacts { .. } => {
                        assert(seen_wrapped(events, event->Wrapped_0));
                    },
                    JobView::AwaitingPersistence { artifacts, .. } => {
                        assert(seen_wrapped(events, artifacts));
                    },
                    _ => {},
                }
            }
        }
    }
}

/// The foreign prover is called only in order: whenever the machine hands out
/// a request, the inner proof has been found to hold, the artifacts have been
/// stored as far as that was asked for, and the request carries the artifacts
/// of one outer circuit of this wrap under the job name of this wrap.
pub proof fn lemma_prover_called_in_order(
    persist: bool,
    job_id: Seq<char>,
    events: Seq<EventView>,
    k: int,
)
    requires
        0 <= k <= events.len(),
        spec_run(persist, job_id, events).1[k] is Prove,
    ensures
        request_in_order(
            persist,
            job_id,
            events.take(k),
            spec_run(persist, job_id, events).1[k]->Prove_0,
        ),
{
    lemma_run_invariant(persist, job_id, events);
}

/// A wrap calls the foreign prover at most once.
pub proof fn lemma_prover_called_once(
    persist: bool,
    job_id: Seq<char>,
    events: Seq<EventView>,
    k1: int,
    k2: int,
)
    requires
        0 <= k1 <= events.len(),
        0 <= k2 <= events.len(),
        spec_run(persist, job_id, events).1[k1] is Prove,
        spec_run(persist, job_id, events).1[k2] is Prove,
    ensures
        k1 == k2,
{
    lemma_run_invariant(persist, job_id, events);
}

/// A wrap ends once: after the machine has said how the wrap ended, it says
/// nothing more, and the wrap stays ended.
pub proof fn lemma_nothing_after_the_end(
    persist: bool,
    job_id: Seq<char>,
    events: Seq<EventView>,
    k: int,
    m: int,
)
    requires
        0 <= k < m <= events.len(),
        spec_run(persist, job_id, events).1[k] is Finish,
    ensures
        spec_run(persist, job_id, events).1[m] is Ignore,
        spec_run(persist, job_id, events).0 is Done,
{
    lemma_run_invariant(persist, job_id, events);
    let (job, actions) = spec_run(persist, job_id, events);
    assert(actions[k] is Finish);
}

/// An inner proof that does not hold ends the wrap at once: no outer circuit
/// is built, nothing is stored, and the foreign prover is not called.
pub proof fn lemma_rejected_proof_ends_wrap(
    persist: bool,
    job_id: Seq<char>,
    events: Seq<EventView>,
    m: int,
)
    requires
        events.len() > 0,
        events[0] == EventView::Verified(false),
        1 < m <= events.len(),
    ensures
        spec_run(persist, job_id, events).1[0] == ActionView::VerifyInnerProof,
        spec_run(persist, job_id, events).1[1] == ActionView::Finish(
            ReportView { outcome: Err(WrapError::InvalidProof), persistence: None },
        ),
        spec_run(persist, job_id, events).1[m] is Ignore,
{
    let actions = spec_run(persist, job_id, events).1;
    let none = events.take(0);
    let first = events.take(1);
    lemma_run_prefix(persist, job_id, events, 0);
    lemma_run_prefix(persist, job_id, events, 1);
    assert(none.len() == 0);
    assert(spec_run(persist, job_id, none) == (
        spec_start(persist, job_id).0,
        seq![spec_start(persist, job_id).1],
    ));
    assert(actions[0] == actions.take(1)[0]);
    assert(first.drop_last() =~= none);
    assert(first.last() == events[0]);
    let opened = spec_run(persist, job_id, none);
    let (next, action) = spec_step(opened.0, first.last());
    assert(spec_run(persist, job_id, first) == (next, opened.1.push(action)));
    assert(actions[1] == actions.take(2)[1]);
    lemma_nothing_after_the_end(persist, job_id, events, 1, m);
}

/// What the machine has said is not taken back: a longer run starts with what
/// a shorter run of the same events said.
pub proof fn lemma_run_prefix(persist: bool, job_id: Seq<char>, events: Seq<EventView>, n: int)
    requires
        0 <= n <= events.len(),
    ensures
        spec_run(persist, job_id, events.take(n)).1 == spec_run(persist, job_id, events).1.take(
            n + 1,
        ),
        spec_run(persist, job_id, events).1.len() == events.len() + 1,
    decreases events.len(),
{
    if n == events.len() {
        assert(events.take(n) =~= events);
        lemma_run_invariant(persist, job_id, events);
        let actions = spec_run(persist, job_id, events).1;
        assert(actions.take(n + 1) =~= actions);
    } else {
        let before = events.drop_last();
        lemma_run_prefix(persist, job_id, before, n);
        assert(before.take(n) =~= events.take(n));
        let said = spec_run(persist, job_id, before).1;
        let actions = spec_run(persist, job_id, events).1;
        assert(said.take(n + 1) =~= actions.take(n + 1));
    }
}

/// `events` with every failure to store the artifacts turned into a success.
pub open spec fn as_if_stored(events: Seq<EventView>) -> Seq<EventView> {
    Seq::new(
        events.len(),
        |i: int|
            if events[i] is Stored {
                EventView::Stored(true)
            } else {
                events[i]
            },
    )
}

/// Two actions are the same but for what they report of storing the
/// artifacts.
pub open spec fn same_but_persistence(a: ActionView, b: ActionView) -> bool {
    match (a, b) {
        (ActionView::Finish(r), ActionView::Finish(s)) => r.outcome == s.outcome,
        _ => a == b,
    }
}

spec fn same_but_persistence_job(a: JobView, b: JobView) -> bool {
    match (a, b) {
        (JobView::AwaitingReply { .. }, JobView::AwaitingReply { .. }) => true,
        _ => a == b,
    }
}

proof fn lemma_storing_simulation(persist: bool, job_id: Seq<char>, events: Seq<EventView>)
    ensures
        same_but_persistence_job(
            spec_run(persist, job_id, events).0,
            spec_run(persist, job_id, as_if_stored(events)).0,
        ),
        spec_run(persist, job_id, events).1.len() == events.len() + 1,
        spec_run(persist, job_id, as_if_stored(events)).1.len() == events.len() + 1,
        forall|k: int|
            0 <= k <= events.len() ==> same_but_persistence(
                #[trigger] spec_run(persist, job_id, events).1[k],
                spec_run(persist, job_id, as_if_stored(events)).1[k],
            ),
    decreases events.len(),
{
    let smooth = as_if_stored(events);
    if events.len() > 0 {
        let before = events.drop_last();
        lemma_storing_simulation(persist, job_id, before);
        assert(smooth.drop_last() =~= as_if_stored(before));
        let (job, said) = spec_run(persist, job_id, before);
        let (job2, said2) = spec_run(persist, job_id, as_if_stored(before));
        let (next, action) = spec_step(job, events.last());
        let (next2, action2) = spec_step(job2, smooth.last());
        assert(spec_run(persist, job_id, events) == (next, said.push(action)));
        assert(spec_run(persist, job_id, smooth) == (next2, said2.push(action2)));
        assert(same_but_persistence(action, action2));
        assert forall|k: int| 0 <= k <= events.len() implies same_but_persistence(
            #[trigger] spec_run(persist, job_id, events).1[k],
            spec_run(persist, job_id, smooth).1[k],
        ) by {
            if k < events.len() {
                assert(said.push(action)[k] == said[k]);
                assert(said2.push(action2)[k] == said2[k]);
            }
        }
    } else {
        assert(smooth =~= events);
    }
}

/// A failure to store the artifacts changes nothing but what is reported of
/// it: the machine asks for the same things, hands the same request to the
/// foreign prover, and ends with the same outcome as if they had been stored.
pub proof fn lemma_storing_does_not_change_outcome(
    persist: bool,
    job_id: Seq<char>,
    events: Seq<EventView>,
    k: int,
)
    requires
        0 <= k <= events.len(),
    ensures
        same_but_persistence(
            spec_run(persist, job_id, events).1[k],
            spec_run(persist, job_id, as_if_stored(events)).1[k],
        ),
{
    lemma_storing_simulation(persist, job_id, events);
}

spec fn report_inv(
    persist: bool,
    job_id: Seq<char>,
    events: Seq<EventView>,
    job: JobView,
    actions: Seq<ActionView>,
) -> bool {
    &&& actions.len() == events.len() + 1
    &&& forall|k: int|
        0 <= k < actions.len() && #[trigger] actions[k] is Finish ==> report_in_order(
            persist,
            events.take(k),
            actions[k]->Finish_0,
        )
    &&& match job {
        JobView::AwaitingReply { persistence } => persistence_in_order(persist, events, persistence),
        JobView::AwaitingPersistence { .. } => persist,
        JobView::AwaitingArtifacts { persist: p, .. } => p == persist,
        JobView::AwaitingVerdict { persist: p, .. } => p == persist,
        JobView::Done => true,
    }
}

/// What may be reported of storing the artifacts after `prior`: nothing, or a
/// failure where they were to be stored and an attempt has failed.
pub open spec fn persistence_in_order(
    persist: bool,
    prior: Seq<EventView>,
    persistence: Option<WrapError>,
) -> bool {
    match persistence {
        None => true,
        Some(e) => e == WrapError::PersistenceFailure && persist && prior.contains(
            EventView::Stored(false),
        ),
    }
}

/// `report` may end a wrap after `prior`: a proof in it is what the last
/// event, a reply of the foreign prover, reads as, and nothing is reported of
/// storing the artifacts that did not happen.
pub open spec fn report_in_order(persist: bool, prior: Seq<EventView>, report: ReportView) -> bool {
    &&& persistence_in_order(persist, prior, report.persistence)
    &&& report.outcome is Ok ==> {
        &&& prior.len() > 0
        &&& prior.last() is Replied
        &&& report.outcome == spec_read_proof_reply(
            prior.last()->Replied_proof,
            prior.last()->Replied_verifying_key,
        )
    }
}

proof fn lemma_report_invariant(persist: bool, job_id: Seq<char>, events: Seq<EventView>)
    ensures
        report_inv(
            persist,
            job_id,
            events,
            spec_run(persist, job_id, events).0,
            spec_run(persist, job_id, events).1,
        ),
    decreases events.len(),
{
    if events.len() > 0 {
        let before = events.drop_last();
        let event = events.last();
        let (job, said) = spec_run(persist, job_id, before);
        let (next, action) = spec_step(job, event);
        let actions = said.push(action);
        let n = events.len() as int;
        lemma_report_invariant(persist, job_id, before);
        lemma_seen_grows(events);
        assert(spec_run(persist, job_id, events) == (next, actions));
        assert(events.take(n) =~= events);
        assert forall|k: int| 0 <= k < actions.len() && #[trigger] actions[k] is Finish implies report_in_order(
            persist,
            events.take(k),
            actions[k]->Finish_0,
        ) by {
            if k < n {
                assert(said[k] is Finish);
                assert(events.take(k) =~= before.take(k));
            } else {
                assert(action is Finish);
            }
        }
    }
}

/// No wrap ends in a proof that the foreign prover did not return: where the
/// machine ends a wrap with a proof and a key, they are what the reply that
/// came last reads as. And it reports a failure to store the artifacts only
/// where they were to be stored and an attempt has failed.
pub proof fn lemma_outcome_is_the_reply(
    persist: bool,
    job_id: Seq<char>,
    events: Seq<EventView>,
    k: int,
)
    requires
        0 <= k <= events.len(),
        spec_run(persist, job_id, events).1[k] is Finish,
    ensures
        report_in_order(persist, events.take(k), spec_run(persist, job_id, events).1[k]->Finish_0),
{
    lemma_report_invariant(persist, job_id, events);
}

/// A run goes on step by step: one more event adds the machine's answer to
/// it and nothing else.
pub proof fn lemma_run_push(
    persist: bool,
    job_id: Seq<char>,
    events: Seq<EventView>,
    event: EventView,
)
    ensures
        spec_run(persist, job_id, events.push(event)) == (
            spec_step(spec_run(persist, job_id, events).0, event).0,
            spec_run(persist, job_id, events).1.push(
                spec_step(spec_run(persist, job_id, events).0, event).1,
            ),
        ),
{
    assert(events.push(event).drop_last() =~= events);
}

/// What happens in a wrap where every part is done as asked: the inner proof
/// holds, the outer circuit gives `artifacts`, they are stored or not where
/// that is asked for, and the foreign prover returns two buffers.
pub open spec fn orderly_events(
    persist: bool,
    artifacts: ArtifactsView,
    stored: bool,
    proof: Seq<u8>,
    verifying_key: Seq<u8>,
) -> Seq<EventView> {
    let wrapped = seq![EventView::Verified(true), EventView::Wrapped(artifacts)];
    let replied = EventView::Replied { proof, verifying_key };
    if persist {
        wrapped.push(EventView::Stored(stored)).push(replied)
    } else {
        wrapped.push(replied)
    }
}

/// A wrap where every part is done as asked, with values that can cross the
/// boundary, calls the foreign prover and ends in what its reply reads as.
/// Whether the artifacts could be stored shows in the report and nowhere
/// else.
pub proof fn lemma_orderly_wrap_ends_in_the_reply(
    persist: bool,
    job_id: Seq<char>,
    artifacts: ArtifactsView,
    stored: bool,
    proof: Seq<u8>,
    verifying_key: Seq<u8>,
)
    requires
        spec_proof_request(artifacts, job_id) is Ok,
    ensures
        ({
            let events = orderly_events(persist, artifacts, stored, proof, verifying_key);
            let (job, actions) = spec_run(persist, job_id, events);
            &&& job is Done
            &&& actions[events.len() - 1] == ActionView::Prove(
                spec_proof_request(artifacts, job_id)->Ok_0,
            )
            &&& actions[events.len() as int] == ActionView::Finish(
                ReportView {
                    outcome: spec_read_proof_reply(proof, verifying_key),
                    persistence: if persist {
                        spec_persistence(stored)
                    } else {
                        None
                    },
                },
            )
        }),
{
    let none = Seq::<EventView>::empty();
    let verified = none.push(EventView::Verified(true));
    let wrapped = verified.push(EventView::Wrapped(artifacts));
    let replied = EventView::Replied { proof, verifying_key };
    assert(wrapped =~= seq![EventView::Verified(true), EventView::Wrapped(artifacts)]);
    assert(spec_run(persist, job_id, none).0 == spec_start(persist, job_id).0);
    lemma_run_push(persist, job_id, none, EventView::Verified(true));
    lemma_run_push(persist, job_id, verified, EventView::Wrapped(artifacts));
    if persist {
        let kept = wrapped.push(EventView::Stored(stored));
        lemma_run_push(persist, job_id, wrapped, EventView::Stored(stored));
        lemma_run_push(persist, job_id, kept, replied);
    } else {
        lemma_run_push(persist, job_id, wrapped, replied);
    }
}

/// An orderly wrap that ends in a proof hands back the pair that the foreign
/// prover returned, byte for byte, and a verification of that pair puts those
/// very bytes before the foreign verifier: between the prover's reply and the
/// verifier's question nothing is parsed away, replaced or encoded anew.
pub proof fn lemma_wrapped_pair_reaches_the_verifier(
    persist: bool,
    job_id: Seq<char>,
    artifacts: ArtifactsView,
    stored: bool,
    proof: Seq<u8>,
    verifying_key: Seq<u8>,
)
    requires
        spec_proof_request(artifacts, job_id) is Ok,
        spec_read_proof_reply(proof, verifying_key) is Ok,
    ensures
        ({
            let events = orderly_events(persist, artifacts, stored, proof, verifying_key);
            let last = spec_run(persist, job_id, events).1[events.len() as int];
            &&& last is Finish
            &&& last->Finish_0.outcome is Ok
            &&& spec_verify_request(
                last->Finish_0.outcome->Ok_0.proof,
                last->Finish_0.outcome->Ok_0.verifying_key,
            ) == Ok::<VerifyRequestView, DecodeError>(
                VerifyRequestView {
                    proof: spec_decode(proof)->Ok_0.push(TERMINATOR),
                    verifying_key: spec_decode(verifying_key)->Ok_0.push(TERMINATOR),
                },
            )
        }),
{
    lemma_orderly_wrap_ends_in_the_reply(persist, job_id, artifacts, stored, proof, verifying_key);
    lemma_pair_passes_through(proof, verifying_key);
}

/// Wraps under different names do not meet at the foreign prover: whatever
/// the two are told, each request carries the name of its own wrap and no
/// other, so the two never hand the same request over.
pub proof fn lemma_jobs_do_not_meet(
    persist: bool,
    job_id: Seq<char>,
    events: Seq<EventView>,
    k: int,
    other_persist: bool,
    other_job_id: Seq<char>,
    other_events: Seq<EventView>,
    other_k: int,
)
    requires
        job_id != other_job_id,
        0 <= k <= events.len(),
        0 <= other_k <= other_events.len(),
        spec_run(persist, job_id, events).1[k] is Prove,
        spec_run(other_persist, other_job_id, other_events).1[other_k] is Prove,
    ensures
        ({
            let one = spec_run(persist, job_id, events).1[k]->Prove_0;
            let other = spec_run(other_persist, other_job_id, other_events).1[other_k]->Prove_0;
            &&& spec_decode_text(one.job_id) == Ok::<Seq<char>, DecodeError>(job_id)
            &&& spec_decode_text(other.job_id) == Ok::<Seq<char>, DecodeError>(other_job_id)
            &&& one.job_id != other.job_id
            &&& one != other
        }),
{
    let artifacts = lemma_request_carries_own_artifacts(persist, job_id, events, k);
    let other_artifacts = lemma_request_carries_own_artifacts(
        other_persist,
        other_job_id,
        other_events,
        other_k,
    );
    lemma_request_reads_back(artifacts, job_id);
    lemma_request_reads_back(other_artifacts, other_job_id);
}

/// The artifacts that a wrap hands to the foreign prover are artifacts that
/// its own outer circuit gave.
proof fn lemma_request_carries_own_artifacts(
    persist: bool,
    job_id: Seq<char>,
    events: Seq<EventView>,
    k: int,
) -> (artifacts: ArtifactsView)
    requires
        0 <= k <= events.len(),
        spec_run(persist, job_id, events).1[k] is Prove,
    ensures
        exists|i: int| 0 <= i < events.len() && events[i] == EventView::Wrapped(artifacts),
        spec_proof_request(artifacts, job_id) == Ok::<ProofRequestView, DecodeError>(
            spec_run(persist, job_id, events).1[k]->Prove_0,
        ),
{
    let request = spec_run(persist, job_id, events).1[k]->Prove_0;
    lemma_prover_called_in_order(persist, job_id, events, k);
    let artifacts = choose|artifacts: ArtifactsView| #[trigger]
        seen_wrapped(events.take(k), artifacts) && spec_proof_request(artifacts, job_id) == Ok::<
            ProofRequestView,
            DecodeError,
        >(request);
    let prior = events.take(k);
    let i = choose|i: int| 0 <= i < prior.len() && prior[i] == EventView::Wrapped(artifacts);
    assert(events[i] == EventView::Wrapped(artifacts));
    artifacts
}

/// The text that describes the outer circuit's shape reaches the foreign
/// prover as it is, and depends on nothing else: two wraps whose outer
/// circuits gave the same text hand over the same buffer, byte for byte,
/// whatever their names are, whether or not they store anything, and
/// whatever the outer proofs are.
pub proof fn lemma_same_shape_same_buffer(
    common_data: Seq<char>,
    persist: bool,
    job_id: Seq<char>,
    events: Seq<EventView>,
    k: int,
    other_persist: bool,
    other_job_id: Seq<char>,
    other_events: Seq<EventView>,
    other_k: int,
)
    requires
        forall|i: int|
            0 <= i < events.len() && #[trigger] events[i] is Wrapped
                ==> events[i]->Wrapped_0.common_data == common_data,
        forall|i: int|
            0 <= i < other_events.len() && #[trigger] other_events[i] is Wrapped
                ==> other_events[i]->Wrapped_0.common_data == common_data,
        0 <= k <= events.len(),
        0 <= other_k <= other_events.len(),
        spec_run(persist, job_id, events).1[k] is Prove,
        spec_run(other_persist, other_job_id, other_events).1[other_k] is Prove,
    ensures
        spec_run(persist, job_id, events).1[k]->Prove_0.artifacts.common_data == encode_utf8(
            common_data,
        ).push(TERMINATOR),
        spec_run(other_persist, other_job_id, other_events).1[other_k]->Prove_0.artifacts.common_data
            == encode_utf8(common_data).push(TERMINATOR),
{
    let artifacts = lemma_request_carries_own_artifacts(persist, job_id, events, k);
    let other_artifacts = lemma_request_carries_own_artifacts(
        other_persist,
        other_job_id,
        other_events,
        other_k,
    );
    let i = choose|i: int| 0 <= i < events.len() && events[i] == EventView::Wrapped(artifacts);
    assert(events[i] is Wrapped);
    let j = choose|j: int|
        0 <= j < other_events.len() && other_events[j] == EventView::Wrapped(other_artifacts);
    assert(other_events[j] is Wrapped);
    lemma_encode_refuses_exactly(common_data);
}

/// The key that the outer proof is checked with reaches the foreign prover
/// as it is, and depends on nothing else: two wraps whose outer circuits gave
/// the same key text hand over the same buffer, byte for byte, whatever their
/// names are, whether or not they store anything, and whatever the outer
/// proofs are.
pub proof fn lemma_same_key_same_buffer(
    verifier_data: Seq<char>,
    persist: bool,
    job_id: Seq<char>,
    events: Seq<EventView>,
    k: int,
    other_persist: bool,
    other_job_id: Seq<char>,
    other_events: Seq<EventView>,
    other_k: int,
)
    requires
        forall|i: int|
            0 <= i < events.len() && #[trigger] events[i] is Wrapped
                ==> events[i]->Wrapped_0.verifier_data == verifier_data,
        forall|i: int|
            0 <= i < other_events.len() && #[trigger] other_events[i] is Wrapped
                ==> other_events[i]->Wrapped_0.verifier_data == verifier_data,
        0 <= k <= events.len(),
        0 <= other_k <= other_events.len(),
        spec_run(persist, job_id, events).1[k] is Prove,
        spec_run(other_persist, other_job_id, other_events).1[other_k] is Prove,
    ensures
        spec_run(persist, job_id, events).1[k]->Prove_0.artifacts.verifier_data == encode_utf8(
            verifier_data,
        ).push(TERMINATOR),
        spec_run(other_persist, other_job_id, other_events).1[other_k]->Prove_0.artifacts.verifier_data
            == encode_utf8(verifier_data).push(TERMINATOR),
{
    let artifacts = lemma_request_carries_own_artifacts(persist, job_id, events, k);
    let other_artifacts = lemma_request_carries_own_artifacts(
        other_persist,
        other_job_id,
        other_events,
        other_k,
    );
    let i = choose|i: int| 0 <= i < events.len() && events[i] == EventView::Wrapped(artifacts);
    assert(events[i] is Wrapped);
    let j = choose|j: int|
        0 <= j < other_events.len() && other_events[j] == EventView::Wrapped(other_artifacts);
    assert(other_events[j] is Wrapped);
    lemma_encode_refuses_exactly(verifier_data);
}

} // verus!
