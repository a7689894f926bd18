//! A single-consumer request/response dispatcher for chain data.
//!
//! The crate holds the verified core of a fetch loop that drains an inbound
//! queue of chain-data requests, resolves each against an external chain
//! client, and republishes the outcome as a typed event: the mapping from
//! requests to the client calls that serve them, the construction of the one
//! event owed per request, and the fail-fast collapse of every client or
//! delivery failure into a single synchronization error. The asynchronous
//! plumbing around it — the channels, the exclusive lock on the receiver,
//! and the client itself — stays outside and hands the core plain values.

pub mod fetcher;
pub mod messages;
pub mod model;

pub use fetcher::{dispatch, FetchLoop};
pub use messages::{
    ChainEvent, ChainRequest, ClientCall, ClientPayload, Error, Height, IndexedHeader,
};
pub use model::StepOutcome;
