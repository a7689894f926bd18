//! The messages the dispatcher moves: chain-data requests, the client calls
//! that serve them, and the events owed back to the consumer.

use vstd::prelude::*;

verus! {

/// The position of a block in the chain.
pub type Height = u32;

/// A block header as the chain client hands it back. The dispatcher never
/// looks inside one; it only pairs it with the height that asked for it.
#[verifier::external_type_specification]
#[verifier::external_body]
pub struct ExHeader(bitcoin::block::Header);

/// The fixed-size hash that names a block. Carried through to the client
/// unread.
#[verifier::external_type_specification]
#[verifier::external_body]
pub struct ExBlockHash(bitcoin::BlockHash);

/// A block paired with its height, as the chain client returns it. Relayed
/// to the consumer unread.
#[verifier::external_type_specification]
#[verifier::external_body]
pub struct ExIndexedBlock(kyoto::IndexedBlock);

/// A chain-data request, consumed once from the inbound queue.
#[derive(Debug)]
pub enum ChainRequest {
    /// Ask for the header at a height.
    Header(Height),
    /// Ask for the block a hash names.
    Block(bitcoin::BlockHash),
}

/// A height paired with the header found at it.
#[derive(Debug)]
pub struct IndexedHeader {
    pub height: Height,
    pub header: bitcoin::block::Header,
}

/// The event owed for one successfully served request, mirroring the
/// request's kind.
#[derive(Debug)]
pub enum ChainEvent {
    Header(IndexedHeader),
    Block(kyoto::IndexedBlock),
}

/// The single error this dispatcher raises: a client lookup failure, a
/// retrieval failure, and a delivery failure all collapse into it, and any
/// of them ends the run loop.
#[derive(Clone, Copy, Debug, PartialEq, Eq, Structural)]
pub enum Error {
    TxSyncFailed,
}

/// The one client call a request is dispatched to.
#[derive(Debug)]
pub enum ClientCall {
    GetHeader(Height),
    GetBlock(bitcoin::BlockHash),
}

/// What the client handed back for one successful call.
#[derive(Debug)]
pub enum ClientPayload {
    Header(bitcoin::block::Header),
    Block(kyoto::IndexedBlock),
}

/// The client call that serves a request: a header request is resolved by a
/// header lookup at its height, a block request by a block retrieval for its
/// hash.
pub open spec fn call_of(req: ChainRequest) -> ClientCall {
    match req {
        ChainRequest::Header(height) => ClientCall::GetHeader(height),
        ChainRequest::Block(block_hash) => ClientCall::GetBlock(block_hash),
    }
}

/// Whether a payload is of the kind the request's client call returns.
pub open spec fn payload_matches(req: ChainRequest, payload: ClientPayload) -> bool {
    match (req, payload) {
        (ChainRequest::Header(_), ClientPayload::Header(_)) => true,
        (ChainRequest::Block(_), ClientPayload::Block(_)) => true,
        _ => false,
    }
}

/// The one event owed for a request served with a payload: a header event
/// carrying the request's own height, or a block event carrying the
/// retrieved block unchanged.
pub open spec fn event_for(req: ChainRequest, payload: ClientPayload) -> ChainEvent {
    match (req, payload) {
        (ChainRequest::Header(height), ClientPayload::Header(header)) => ChainEvent::Header(
            IndexedHeader { height, header },
        ),
        (ChainRequest::Block(_), ClientPayload::Block(block)) => ChainEvent::Block(block),
        _ => arbitrary(),
    }
}

/// Whether an event answers a request: the kinds agree, and a header event
/// carries the requested height.
pub open spec fn event_answers(req: ChainRequest, ev: ChainEvent) -> bool {
    match (req, ev) {
        (ChainRequest::Header(height), ChainEvent::Header(ih)) => ih.height == height,
        (ChainRequest::Block(_), ChainEvent::Block(_)) => true,
        _ => false,
    }
}

/// An event built from a matching payload answers its request.
pub proof fn lemma_event_for_answers(req: ChainRequest, payload: ClientPayload)
    requires
        payload_matches(req, payload),
    ensures
        event_answers(req, event_for(req, payload)),
{
}

} // verus!
