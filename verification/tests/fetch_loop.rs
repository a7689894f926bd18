use bitcoin::block::Header;
use bitcoin::{Block, BlockHash, Network};
use chain_fetcher::{dispatch, ChainEvent, ChainRequest, ClientCall, Error, FetchLoop};
use kyoto::IndexedBlock;

fn sample_block(network: Network) -> Block {
    bitcoin::constants::genesis_block(network)
}

fn sample_header(network: Network) -> Header {
    sample_block(network).header
}

fn sample_hash(network: Network) -> BlockHash {
    sample_header(network).block_hash()
}

#[test]
fn dispatch_header_request_asks_for_its_height() {
    let call = dispatch(ChainRequest::Header(42));
    assert!(matches!(call, ClientCall::GetHeader(42)));
}

#[test]
fn dispatch_block_request_asks_for_its_hash() {
    let hash = sample_hash(Network::Bitcoin);
    let call = dispatch(ChainRequest::Block(hash));
    assert!(matches!(call, ClientCall::GetBlock(h) if h == hash));
}

#[test]
fn fresh_loop_is_running_and_owes_nothing() {
    let fetch_loop = FetchLoop::new();
    assert!(fetch_loop.is_running());
    assert!(!fetch_loop.is_pending());
}

#[test]
fn header_request_success_yields_one_indexed_header_event() {
    let header = sample_header(Network::Bitcoin);
    let mut fetch_loop = FetchLoop::new();
    let event = fetch_loop.resolve_header(100, Some(header));
    match event {
        Ok(ChainEvent::Header(indexed)) => {
            assert_eq!(indexed.height, 100);
            assert_eq!(indexed.header, header);
        },
        _ => panic!("a found header must yield exactly one header event"),
    }
    assert!(fetch_loop.is_pending());
    assert_eq!(fetch_loop.delivered(true), Ok(()));
    assert!(fetch_loop.is_running());
    assert!(!fetch_loop.is_pending());
}

#[test]
fn block_request_success_yields_the_retrieved_block_event() {
    let block = sample_block(Network::Bitcoin);
    let hash = block.block_hash();
    let fetched = IndexedBlock { height: 21, block: block.clone() };
    let mut fetch_loop = FetchLoop::new();
    let event = fetch_loop.resolve_block(hash, Some(fetched));
    match event {
        Ok(ChainEvent::Block(indexed)) => {
            assert_eq!(indexed.height, 21);
            assert_eq!(indexed.block, block);
        },
        _ => panic!("a retrieved block must yield exactly one block event"),
    }
    assert_eq!(fetch_loop.delivered(true), Ok(()));
    assert!(fetch_loop.is_running());
}

#[test]
fn ordered_run_emits_one_matching_event_per_request() {
    let first_header = sample_header(Network::Bitcoin);
    let second_header = sample_header(Network::Testnet);
    let block = sample_block(Network::Regtest);
    let hash = block.block_hash();
    let mut fetch_loop = FetchLoop::new();
    let mut events: Vec<ChainEvent> = Vec::new();

    let event = fetch_loop.resolve_header(7, Some(first_header)).unwrap();
    assert_eq!(fetch_loop.delivered(true), Ok(()));
    events.push(event);
    let event = fetch_loop
        .resolve_block(hash, Some(IndexedBlock { height: 8, block: block.clone() }))
        .unwrap();
    assert_eq!(fetch_loop.delivered(true), Ok(()));
    events.push(event);
    let event = fetch_loop.resolve_header(9, Some(second_header)).unwrap();
    assert_eq!(fetch_loop.delivered(true), Ok(()));
    events.push(event);

    assert!(fetch_loop.is_running());
    assert_eq!(events.len(), 3);
    assert!(matches!(&events[0], ChainEvent::Header(ih) if ih.height == 7));
    assert!(matches!(&events[1], ChainEvent::Block(ib) if ib.height == 8));
    assert!(matches!(&events[2], ChainEvent::Header(ih) if ih.height == 9));
}

#[test]
fn header_lookup_failure_is_tx_sync_failed() {
    let mut fetch_loop = FetchLoop::new();
    let event = fetch_loop.resolve_header(5, None);
    assert!(matches!(event, Err(Error::TxSyncFailed)));
    assert!(!fetch_loop.is_running());
}

#[test]
fn block_retrieval_failure_is_tx_sync_failed() {
    let hash = sample_hash(Network::Signet);
    let mut fetch_loop = FetchLoop::new();
    let event = fetch_loop.resolve_block(hash, None);
    assert!(matches!(event, Err(Error::TxSyncFailed)));
    assert!(!fetch_loop.is_running());
}

#[test]
fn client_failure_stops_loop_after_earlier_events() {
    let header = sample_header(Network::Bitcoin);
    let mut fetch_loop = FetchLoop::new();
    let first = fetch_loop.resolve_header(1, Some(header));
    assert!(first.is_ok());
    assert_eq!(fetch_loop.delivered(true), Ok(()));
    let second = fetch_loop.resolve_header(2, None);
    assert!(matches!(second, Err(Error::TxSyncFailed)));
    assert!(!fetch_loop.is_running());
}

#[test]
fn rejected_send_fails_the_loop_instead_of_dropping_the_event() {
    let header = sample_header(Network::Bitcoin);
    let mut fetch_loop = FetchLoop::new();
    let event = fetch_loop.resolve_header(3, Some(header));
    assert!(event.is_ok());
    let delivery = fetch_loop.delivered(false);
    assert!(matches!(delivery, Err(Error::TxSyncFailed)));
    assert!(!fetch_loop.is_running());
    assert!(!fetch_loop.is_pending());
}
