//! The verified core of the fetch loop: the dispatch of each request to its
//! client call, the event owed back for each answer, and a tracker that
//! carries the loop's whole history so that what it has emitted is pinned
//! at every step.
//!
//! The loop's edges — the inbound queue, the exclusive lock on its
//! receiver, the asynchronous client, and the outbound sink — live outside
//! this crate and hand the core plain values: the request received, whether
//! the client answered and with what, and whether the send was accepted.

use vstd::prelude::*;

use crate::messages::{
    call_of, event_answers, event_for, payload_matches, ChainEvent, ChainRequest, ClientCall,
    ClientPayload, Error, Height, IndexedHeader,
};
use crate::model::{
    lemma_run_all_delivered, lemma_run_extend_requests, lemma_run_snoc, lemma_run_stops_at_failure,
    outcome_matches, run_events, run_result, StepOutcome,
};

verus! {

/// The client call that serves a request.
pub fn dispatch(req: ChainRequest) -> (c: ClientCall)
    ensures
        c == call_of(req),
{
    match req {
        ChainRequest::Header(height) => ClientCall::GetHeader(height),
        ChainRequest::Block(block_hash) => ClientCall::GetBlock(block_hash),
    }
}

/// The dispatcher's state across one run, with its whole history carried as
/// ghost data: which requests were consumed, how each ended, and which
/// events went out. One instance serves one run of the loop; the caller
/// feeds it the request it received, then what the client answered, then
/// whether the send was accepted.
pub struct FetchLoop {
    /// Whether the loop may still process requests: no failure yet.
    pub running: bool,
    /// Whether an event has been resolved and handed out whose delivery is
    /// still owed.
    pub pending: bool,
    /// Every request consumed so far, in order.
    pub requests: Ghost<Seq<ChainRequest>>,
    /// How each fully processed request ended, in order.
    pub outcomes: Ghost<Seq<StepOutcome>>,
    /// Every event delivered so far, in order.
    pub emitted: Ghost<Seq<ChainEvent>>,
    /// While an event's delivery is owed: the request being served.
    pub pending_request: Ghost<ChainRequest>,
    /// While an event's delivery is owed: the payload the client answered.
    pub pending_payload: Ghost<ClientPayload>,
}

impl FetchLoop {
    /// The dispatcher's invariant: the history is consistent — one outcome
    /// per finished request, one more request consumed while a delivery is
    /// owed, every recorded payload of the kind its request asked for, all
    /// outcomes deliveries while the loop runs, exactly one failure at the
    /// end once it stopped — and the events that went out are exactly what
    /// the run model owes for this history.
    pub open spec fn inv(self) -> bool {
        &&& (self.pending ==> self.running)
        &&& self.requests@.len() == self.outcomes@.len() + (if self.pending {
            1int
        } else {
            0int
        })
        &&& (forall|i: int|
            0 <= i < self.outcomes@.len() ==> outcome_matches(
                self.requests@[i],
                #[trigger] self.outcomes@[i],
            ))
        &&& (self.running ==> forall|i: int|
            0 <= i < self.outcomes@.len() ==> #[trigger] self.outcomes@[i] is Delivered)
        &&& (!self.running ==> {
            &&& !self.pending
            &&& self.outcomes@.len() > 0
            &&& (forall|i: int|
                0 <= i < self.outcomes@.len() - 1 ==> #[trigger] self.outcomes@[i] is Delivered)
            &&& !(self.outcomes@.last() is Delivered)
        })
        &&& (self.pending ==> {
            &&& self.requests@.last() == self.pending_request@
            &&& payload_matches(self.pending_request@, self.pending_payload@)
        })
        &&& self.emitted@ == run_events(self.requests@, self.outcomes@)
    }

    /// A fresh dispatcher: running, nothing consumed, nothing owed.
    pub fn new() -> (s: Self)
        ensures
            s.inv(),
            s.running,
            !s.pending,
            s.requests@ == Seq::<ChainRequest>::empty(),
            s.outcomes@ == Seq::<StepOutcome>::empty(),
            s.emitted@ == Seq::<ChainEvent>::empty(),
    {
        FetchLoop {
            running: true,
            pending: false,
            requests: Ghost(Seq::empty()),
            outcomes: Ghost(Seq::empty()),
            emitted: Ghost(Seq::empty()),
            pending_request: Ghost(arbitrary()),
            pending_payload: Ghost(arbitrary()),
        }
    }

    /// Whether the loop may still process a request.
    pub fn is_running(&self) -> (r: bool)
        ensures
            r == self.running,
    {
        self.running
    }

    /// Whether an event has been handed out whose delivery is still owed.
    pub fn is_pending(&self) -> (r: bool)
        ensures
            r == self.pending,
    {
        self.pending
    }

    /// Consume a header request together with what the client's header
    /// lookup answered for its height. A found header yields the one event
    /// owed — the header indexed by the requested height — whose delivery
    /// is then owed; a failed lookup ends the run with the synchronization
    /// error and emits nothing.
    pub fn resolve_header(
        &mut self,
        height: Height,
        lookup: Option<bitcoin::block::Header>,
    ) -> (r: Result<ChainEvent, Error>)
        requires
            old(self).inv(),
            old(self).running,
            !old(self).pending,
        ensures
            final(self).inv(),
            final(self).requests@ == old(self).requests@.push(ChainRequest::Header(height)),
            final(self).emitted@ == old(self).emitted@,
            match lookup {
                Some(header) => {
                    &&& r == Ok::<ChainEvent, Error>(
                        ChainEvent::Header(IndexedHeader { height, header }),
                    )
                    &&& final(self).running
                    &&& final(self).pending
                    &&& final(self).outcomes@ == old(self).outcomes@
                    &&& final(self).pending_request@ == ChainRequest::Header(height)
                    &&& final(self).pending_payload@ == ClientPayload::Header(header)
                },
                None => {
                    &&& r == Err::<ChainEvent, Error>(Error::TxSyncFailed)
                    &&& !final(self).running
                    &&& !final(self).pending
                    &&& final(self).outcomes@ == old(self).outcomes@.push(
                        StepOutcome::ClientFailed,
                    )
                },
            },
    {
        proof {
            lemma_run_extend_requests(
                self.requests@,
                self.outcomes@,
                ChainRequest::Header(height),
            );
        }
        self.requests = Ghost(self.requests@.push(ChainRequest::Header(height)));
        match lookup {
            Some(header) => {
                self.pending = true;
                self.pending_request = Ghost(ChainRequest::Header(height));
                self.pending_payload = Ghost(ClientPayload::Header(header));
                Ok(ChainEvent::Header(IndexedHeader { height, header }))
            },
            None => {
                self.running = false;
                proof {
                    lemma_run_snoc(self.requests@, self.outcomes@, StepOutcome::ClientFailed);
                }
                self.outcomes = Ghost(self.outcomes@.push(StepOutcome::ClientFailed));
                Err(Error::TxSyncFailed)
            },
        }
    }

    /// Consume a block request together with what the client's block
    /// retrieval answered for its hash. A retrieved block yields the one
    /// event owed — the indexed block, unchanged — whose delivery is then
    /// owed; a failed retrieval ends the run with the synchronization error
    /// and emits nothing.
    pub fn resolve_block(
        &mut self,
        block_hash: bitcoin::BlockHash,
        fetched: Option<kyoto::IndexedBlock>,
    ) -> (r: Result<ChainEvent, Error>)
        requires
            old(self).inv(),
            old(self).running,
            !old(self).pending,
        ensures
            final(self).inv(),
            final(self).requests@ == old(self).requests@.push(ChainRequest::Block(block_hash)),
            final(self).emitted@ == old(self).emitted@,
            match fetched {
                Some(block) => {
                    &&& r == Ok::<ChainEvent, Error>(ChainEvent::Block(block))
                    &&& final(self).running
                    &&& final(self).pending
                    &&& final(self).outcomes@ == old(self).outcomes@
                    &&& final(self).pending_request@ == ChainRequest::Block(block_hash)
                    &&& final(self).pending_payload@ == ClientPayload::Block(block)
                },
                None => {
                    &&& r == Err::<ChainEvent, Error>(Error::TxSyncFailed)
                    &&& !final(self).running
                    &&& !final(self).pending
                    &&& final(self).outcomes@ == old(self).outcomes@.push(
                        StepOutcome::ClientFailed,
                    )
                },
            },
    {
        proof {
            lemma_run_extend_requests(
                self.requests@,
                self.outcomes@,
                ChainRequest::Block(block_hash),
            );
        }
        self.requests = Ghost(self.requests@.push(ChainRequest::Block(block_hash)));
        match fetched {
            Some(block) => {
                self.pending = true;
                self.pending_request = Ghost(ChainRequest::Block(block_hash));
                self.pending_payload = Ghost(ClientPayload::Block(block));
                Ok(ChainEvent::Block(block))
            },
            None => {
                self.running = false;
                proof {
                    lemma_run_snoc(self.requests@, self.outcomes@, StepOutcome::ClientFailed);
                }
                self.outcomes = Ghost(self.outcomes@.push(StepOutcome::ClientFailed));
                Err(Error::TxSyncFailed)
            },
        }
    }

    /// Record whether the outbound sink accepted the event whose delivery
    /// was owed. An accepted send finishes the request — exactly this one
    /// event, built from the request and its payload, joins the emitted
    /// history — while a rejected send ends the run with the
    /// synchronization error: the event is not retried and not silently
    /// dropped.
    pub fn delivered(&mut self, sent: bool) -> (r: Result<(), Error>)
        requires
            old(self).inv(),
            old(self).pending,
        ensures
            final(self).inv(),
            final(self).requests@ == old(self).requests@,
            !final(self).pending,
            if sent {
                &&& r == Ok::<(), Error>(())
                &&& final(self).running
                &&& final(self).outcomes@ == old(self).outcomes@.push(
                    StepOutcome::Delivered(old(self).pending_payload@),
                )
                &&& final(self).emitted@ == old(self).emitted@.push(
                    event_for(old(self).pending_request@, old(self).pending_payload@),
                )
            } else {
                &&& r == Err::<(), Error>(Error::TxSyncFailed)
                &&& !final(self).running
                &&& final(self).outcomes@ == old(self).outcomes@.push(
                    StepOutcome::SendFailed(old(self).pending_payload@),
                )
                &&& final(self).emitted@ == old(self).emitted@
            },
    {
        self.pending = false;
        if sent {
            proof {
                lemma_run_snoc(
                    self.requests@,
                    self.outcomes@,
                    StepOutcome::Delivered(self.pending_payload@),
                );
            }
            self.outcomes = Ghost(
                self.outcomes@.push(StepOutcome::Delivered(self.pending_payload@)),
            );
            self.emitted = Ghost(
                self.emitted@.push(event_for(self.pending_request@, self.pending_payload@)),
            );
            Ok(())
        } else {
            self.running = false;
            proof {
                lemma_run_snoc(
                    self.requests@,
                    self.outcomes@,
                    StepOutcome::SendFailed(self.pending_payload@),
                );
            }
            self.outcomes = Ghost(
                self.outcomes@.push(StepOutcome::SendFailed(self.pending_payload@)),
            );
            Err(Error::TxSyncFailed)
        }
    }

    /// While the loop is still running and owes no delivery, every request
    /// consumed so far was served: as many events went out as requests came
    /// in, the i-th answering the i-th request in kind — and in height, for
    /// header requests — and no error was raised.
    pub proof fn lemma_running_trace(self)
        requires
            self.inv(),
            self.running,
            !self.pending,
        ensures
            self.emitted@.len() == self.requests@.len(),
            forall|i: int|
                0 <= i < self.requests@.len() ==> event_answers(
                    self.requests@[i],
                    #[trigger] self.emitted@[i],
                ),
            run_result(self.requests@, self.outcomes@) is None,
    {
        lemma_run_all_delivered(self.requests@, self.outcomes@);
    }

    /// Once the loop has stopped, its run ended with the one
    /// synchronization error: every request but the last was served with
    /// exactly one answering event, and the last — the one that failed —
    /// produced none.
    pub proof fn lemma_failed_trace(self)
        requires
            self.inv(),
            !self.running,
        ensures
            self.emitted@.len() == self.requests@.len() - 1,
            forall|i: int|
                0 <= i < self.requests@.len() - 1 ==> event_answers(
                    self.requests@[i],
                    #[trigger] self.emitted@[i],
                ),
            run_result(self.requests@, self.outcomes@) == Some(Error::TxSyncFailed),
    {
        let k: int = self.outcomes@.len() as int;
        lemma_run_stops_at_failure(self.requests@, self.outcomes@, k);
        assert forall|i: int| 0 <= i < self.requests@.len() - 1 implies event_answers(
            self.requests@[i],
            #[trigger] self.emitted@[i],
        ) by {
            crate::messages::lemma_event_for_answers(
                self.requests@[i],
                self.outcomes@[i]->Delivered_0,
            );
        }
    }
}

} // verus!
