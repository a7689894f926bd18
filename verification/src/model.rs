//! A model of one whole run of the fetch loop: the requests consumed, what
//! happened to each, and from those the events delivered and the way the
//! loop ended.

use vstd::prelude::*;

use crate::messages::{
    event_answers, event_for, payload_matches, ChainEvent, ChainRequest, ClientPayload, Error,
};

verus! {

/// How processing one consumed request ended.
pub enum StepOutcome {
    /// The client answered with this payload and the event reached the
    /// consumer.
    Delivered(ClientPayload),
    /// The client's lookup or retrieval failed; no event was built.
    ClientFailed,
    /// The client answered with this payload, but the outbound send was
    /// rejected; the event was lost with an error, not silently dropped.
    SendFailed(ClientPayload),
}

/// Whether an outcome could have come from processing this request: a
/// payload, where there is one, is of the kind the request's call returns.
pub open spec fn outcome_matches(req: ChainRequest, out: StepOutcome) -> bool {
    match out {
        StepOutcome::Delivered(payload) => payload_matches(req, payload),
        StepOutcome::ClientFailed => true,
        StepOutcome::SendFailed(payload) => payload_matches(req, payload),
    }
}

/// The events the loop delivers, in order, when the requests are consumed in
/// order and each meets its outcome: one event per delivered request, and
/// nothing at or after the first failure.
pub open spec fn run_events(reqs: Seq<ChainRequest>, outs: Seq<StepOutcome>) -> Seq<ChainEvent>
    decreases reqs.len(),
{
    if reqs.len() == 0 || outs.len() == 0 {
        Seq::empty()
    } else {
        match outs[0] {
            StepOutcome::Delivered(payload) => seq![event_for(reqs[0], payload)] + run_events(
                reqs.drop_first(),
                outs.drop_first(),
            ),
            _ => Seq::empty(),
        }
    }
}

/// How the loop ends on these requests and outcomes: `None` while every
/// outcome so far is a delivery (the loop keeps polling), and the one
/// synchronization error at the first failure.
pub open spec fn run_result(reqs: Seq<ChainRequest>, outs: Seq<StepOutcome>) -> Option<Error>
    decreases reqs.len(),
{
    if reqs.len() == 0 || outs.len() == 0 {
        None
    } else {
        match outs[0] {
            StepOutcome::Delivered(_) => run_result(reqs.drop_first(), outs.drop_first()),
            _ => Some(Error::TxSyncFailed),
        }
    }
}

/// If the client succeeds on every call and every event is delivered, a run
/// over N requests emits exactly N events, the i-th answering the i-th
/// request — same kind, and for header requests the same height — and the
/// loop does not fail.
pub proof fn lemma_run_all_delivered(reqs: Seq<ChainRequest>, outs: Seq<StepOutcome>)
    requires
        reqs.len() == outs.len(),
        forall|i: int| 0 <= i < outs.len() ==> #[trigger] outs[i] is Delivered,
        forall|i: int| 0 <= i < outs.len() ==> outcome_matches(reqs[i], #[trigger] outs[i]),
    ensures
        run_events(reqs, outs).len() == reqs.len(),
        forall|i: int|
            0 <= i < reqs.len() ==> run_events(reqs, outs)[i] == event_for(
                reqs[i],
                #[trigger] outs[i]->Delivered_0,
            ),
        forall|i: int|
            0 <= i < reqs.len() ==> event_answers(reqs[i], #[trigger] run_events(reqs, outs)[i]),
        run_result(reqs, outs) is None,
    decreases reqs.len(),
{
    if reqs.len() > 0 {
        lemma_run_all_delivered(reqs.drop_first(), outs.drop_first());
        assert forall|i: int| 0 <= i < reqs.len() implies run_events(reqs, outs)[i] == event_for(
            reqs[i],
            #[trigger] outs[i]->Delivered_0,
        ) by {
            if i > 0 {
                assert(reqs.drop_first()[i - 1] == reqs[i]);
                assert(outs.drop_first()[i - 1] == outs[i]);
            }
        }
        assert forall|i: int| 0 <= i < reqs.len() implies event_answers(
            reqs[i],
            #[trigger] run_events(reqs, outs)[i],
        ) by {
            crate::messages::lemma_event_for_answers(reqs[i], outs[i]->Delivered_0);
        }
    }
}

/// If the first k-1 outcomes are deliveries and the k-th is a failure —
/// whether the client call failed or the outbound send was rejected —
/// exactly k-1 events are emitted, the i-th built from the i-th request and
/// its payload, and the run ends with the one synchronization error.
pub proof fn lemma_run_stops_at_failure(reqs: Seq<ChainRequest>, outs: Seq<StepOutcome>, k: int)
    requires
        0 < k <= reqs.len(),
        k <= outs.len(),
        forall|i: int| 0 <= i < k - 1 ==> #[trigger] outs[i] is Delivered,
        !(outs[k - 1] is Delivered),
    ensures
        run_events(reqs, outs).len() == k - 1,
        forall|i: int|
            0 <= i < k - 1 ==> run_events(reqs, outs)[i] == event_for(
                reqs[i],
                #[trigger] outs[i]->Delivered_0,
            ),
        run_result(reqs, outs) == Some(Error::TxSyncFailed),
    decreases k,
{
    if k > 1 {
        assert(outs[0] is Delivered);
        lemma_run_stops_at_failure(reqs.drop_first(), outs.drop_first(), k - 1);
        assert forall|i: int| 0 <= i < k - 1 implies run_events(reqs, outs)[i] == event_for(
            reqs[i],
            #[trigger] outs[i]->Delivered_0,
        ) by {
            if i > 0 {
                assert(reqs.drop_first()[i - 1] == reqs[i]);
                assert(outs.drop_first()[i - 1] == outs[i]);
            }
        }
    }
}

/// Requests the loop has consumed but not finished processing do not show
/// in the run yet: the events and the ending are decided by the outcomes
/// alone while they are the shorter sequence.
pub proof fn lemma_run_extend_requests(
    reqs: Seq<ChainRequest>,
    outs: Seq<StepOutcome>,
    req: ChainRequest,
)
    requires
        outs.len() <= reqs.len(),
    ensures
        run_events(reqs.push(req), outs) == run_events(reqs, outs),
        run_result(reqs.push(req), outs) == run_result(reqs, outs),
    decreases reqs.len(),
{
    if reqs.len() > 0 && outs.len() > 0 {
        assert(reqs.push(req)[0] == reqs[0]);
        assert(reqs.push(req).drop_first() =~= reqs.drop_first().push(req));
        lemma_run_extend_requests(reqs.drop_first(), outs.drop_first(), req);
        match outs[0] {
            StepOutcome::Delivered(payload) => {
                assert(run_events(reqs.push(req), outs) =~= run_events(reqs, outs));
            },
            _ => {},
        }
    }
}

/// Recording the outcome of the one request that was consumed but still
/// open appends its event to the run when it was delivered, and leaves the
/// events as they stand while ending the run with the synchronization error
/// when it failed.
pub proof fn lemma_run_snoc(reqs: Seq<ChainRequest>, outs: Seq<StepOutcome>, out: StepOutcome)
    requires
        reqs.len() == outs.len() + 1,
        forall|i: int| 0 <= i < outs.len() ==> #[trigger] outs[i] is Delivered,
    ensures
        out is Delivered ==> run_events(reqs, outs.push(out)) == run_events(reqs, outs).push(
            event_for(reqs.last(), out->Delivered_0),
        ),
        !(out is Delivered) ==> run_events(reqs, outs.push(out)) == run_events(reqs, outs),
        out is Delivered ==> run_result(reqs, outs.push(out)) is None,
        !(out is Delivered) ==> run_result(reqs, outs.push(out)) == Some(Error::TxSyncFailed),
    decreases reqs.len(),
{
    if outs.len() == 0 {
        assert(reqs.drop_first().len() == 0);
        assert(run_events(reqs.drop_first(), outs.push(out).drop_first())
            == Seq::<ChainEvent>::empty());
        assert(run_result(reqs.drop_first(), outs.push(out).drop_first())
            == Option::<Error>::None);
        match out {
            StepOutcome::Delivered(payload) => {
                assert(run_events(reqs, outs.push(out)) =~= run_events(reqs, outs).push(
                    event_for(reqs.last(), payload),
                ));
            },
            _ => {
                assert(run_events(reqs, outs.push(out)) =~= run_events(reqs, outs));
            },
        }
    } else {
        assert(outs[0] is Delivered);
        assert(outs.push(out)[0] == outs[0]);
        assert(outs.push(out).drop_first() =~= outs.drop_first().push(out));
        assert(reqs.drop_first().last() == reqs.last());
        lemma_run_snoc(reqs.drop_first(), outs.drop_first(), out);
        let head = seq![event_for(reqs[0], outs[0]->Delivered_0)];
        assert(run_events(reqs, outs.push(out)) == head + run_events(
            reqs.drop_first(),
            outs.drop_first().push(out),
        ));
        match out {
            StepOutcome::Delivered(payload) => {
                assert((head + run_events(reqs.drop_first(), outs.drop_first()).push(
                    event_for(reqs.last(), payload),
                )) =~= (head + run_events(reqs.drop_first(), outs.drop_first())).push(
                    event_for(reqs.last(), payload),
                ));
            },
            _ => {},
        }
    }
}

/// What stands beyond the first failure never matters: two outcome
/// sequences that agree up to and including a failing k-th entry give the
/// same events and the same ending, so the loop makes no further client
/// call and emits no further event after it terminates.
pub proof fn lemma_run_ignores_later_outcomes(
    reqs: Seq<ChainRequest>,
    outs1: Seq<StepOutcome>,
    outs2: Seq<StepOutcome>,
    k: int,
)
    requires
        0 < k <= outs1.len(),
        k <= outs2.len(),
        forall|i: int| 0 <= i < k ==> outs1[i] == outs2[i],
        !(outs1[k - 1] is Delivered),
    ensures
        run_events(reqs, outs1) == run_events(reqs, outs2),
        run_result(reqs, outs1) == run_result(reqs, outs2),
    decreases k,
{
    if reqs.len() > 0 {
        if k > 1 {
            if outs1[0] is Delivered {
                lemma_run_ignores_later_outcomes(
                    reqs.drop_first(),
                    outs1.drop_first(),
                    outs2.drop_first(),
                    k - 1,
                );
            }
        }
    }
}

} // verus!
