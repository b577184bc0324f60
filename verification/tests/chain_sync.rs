use spaces_node::chain::{ChainHash, RpcBlockId};
use spaces_node::fetcher::{
    parse_block_response, supervisor_poll, BlockEvent, BlockFetchError, BlockIngest, FetchedBlock,
    SupervisorAction,
};
use spaces_node::rpc::{BitcoinRpcError, JsonRpcError};
use spaces_node::sync::{
    handle_block_event, next_loop_action, select_restore_point, LoopChoice, SyncAction,
};
use spaces_node::wallet::SpacesWallet;

fn h(tag: u8) -> ChainHash {
    ChainHash::new(vec![tag; 32])
}

fn id(height: u32, tag: u8) -> RpcBlockId {
    RpcBlockId { height, hash: h(tag) }
}

fn genesis() -> bitcoin::Block {
    bitcoin::blockdata::constants::genesis_block(bitcoin::Network::Regtest)
}

fn fetched(parent_tag: u8) -> FetchedBlock {
    FetchedBlock { parent: h(parent_tag), block: genesis() }
}

fn empty_wallet(tip: RpcBlockId, checkpoints: Vec<RpcBlockId>) -> SpacesWallet {
    SpacesWallet {
        coins: vec![],
        spaces: vec![],
        own_scripts: vec![],
        tip,
        checkpoints,
        coin_addrs: vec![],
        next_coin_addr: 0,
        space_addrs: vec![],
        next_space_addr: 0,
        auction_outputs: vec![],
    }
}

#[test]
fn fast_path_slices_block_hex() {
    let block = genesis();
    let raw_block = bitcoin::consensus::encode::serialize(&block);
    let hex = spaces_node::encoding::bytes_to_hex(&raw_block);
    let mut body = b"{\"result\":\"".to_vec();
    body.extend_from_slice(&hex);
    body.extend_from_slice(b"\",\"error\":null,\"id\":\"7\"}\n");
    let fb = parse_block_response(body, 7).unwrap();
    // The genesis block's parent hash is all zeroes.
    assert_eq!(fb.parent.bytes, vec![0u8; 32]);
    assert_eq!(fb.block.block_hash(), block.block_hash());
}

#[test]
fn fast_path_accepts_missing_trailing_newline() {
    let raw_block = bitcoin::consensus::encode::serialize(&genesis());
    let hex = spaces_node::encoding::bytes_to_hex(&raw_block);
    let mut body = b"{\"result\":\"".to_vec();
    body.extend_from_slice(&hex);
    body.extend_from_slice(b"\",\"error\":null,\"id\":\"7\"}");
    assert!(parse_block_response(body, 7).is_ok());
}

#[test]
fn whitespace_variation_falls_back_to_json_parse() {
    let raw_block = bitcoin::consensus::encode::serialize(&genesis());
    let hex = spaces_node::encoding::bytes_to_hex(&raw_block);
    let mut body = b"{ \"result\" : \"".to_vec();
    body.extend_from_slice(&hex);
    body.extend_from_slice(b"\" , \"error\" : null , \"id\" : \"7\" }\n");
    let fb = parse_block_response(body, 7).unwrap();
    assert_eq!(fb.parent.bytes, vec![0u8; 32]);
}

#[test]
fn error_envelope_is_surfaced() {
    let body = br#"{"result":null,"error":{"code":-5,"message":"Block not found"},"id":"9"}"#
        .to_vec();
    match parse_block_response(body, 9) {
        Err(BitcoinRpcError::Rpc(j)) => {
            assert_eq!(j.code, -5);
            assert_eq!(j.message, "Block not found");
        },
        other => panic!("unexpected: {:?}", other.map(|fb| fb.parent.bytes)),
    }
}

#[test]
fn odd_hex_length_is_refused() {
    let body = b"{\"result\":\"abc\",\"error\":null,\"id\":\"1\"}\n".to_vec();
    assert!(parse_block_response(body, 1).is_err());
}

#[test]
fn happy_path_sync_emits_ten_blocks_in_order() {
    // Tip 100, starting from {90, H90}: exactly the heights 91..=100, in
    // order, each naming the previous hash as its parent.
    let start = id(90, 90);
    match supervisor_poll(90, Ok(100)) {
        SupervisorAction::StartBatch { end_height, concurrency } => {
            assert_eq!(end_height, 100);
            assert_eq!(concurrency, 8);
        },
        _ => panic!("expected a batch"),
    }
    let mut ingest = BlockIngest::new(&start, 100);
    let mut queued = Vec::new();
    while let Some(height) = ingest.take_next_height() {
        queued.push(height);
    }
    assert_eq!(queued, (91..=100).collect::<Vec<u32>>());
    // Deliver out of order.
    for &height in queued.iter().rev() {
        ingest.accept(id(height, height as u8), fetched((height - 1) as u8));
    }
    let mut emitted = Vec::new();
    while let Some(step) = ingest.try_emit_next() {
        let (bid, _block) = step.unwrap();
        emitted.push(bid.height);
    }
    assert_eq!(emitted, (91..=100).collect::<Vec<u32>>());
    assert!(ingest.batch_done(0));
    let last = ingest.final_block();
    assert_eq!(last.height, 100);
    assert_eq!(last.hash.bytes, vec![100u8; 32]);
    // After the batch the supervisor idles while the tip stays put.
    match supervisor_poll(100, Ok(100)) {
        SupervisorAction::Idle => {},
        _ => panic!("expected idle"),
    }
}

#[test]
fn small_batch_uses_one_worker_per_block() {
    match supervisor_poll(99, Ok(100)) {
        SupervisorAction::StartBatch { end_height, concurrency } => {
            assert_eq!(end_height, 100);
            assert_eq!(concurrency, 1);
        },
        _ => panic!("expected a batch"),
    }
}

#[test]
fn rpc_failure_fails_the_generation() {
    let err = BitcoinRpcError::Rpc(JsonRpcError { code: -8, message: "bad".to_string() });
    match supervisor_poll(90, Err(err)) {
        SupervisorAction::Fail(BlockFetchError::RpcError(BitcoinRpcError::Rpc(j))) => {
            assert_eq!(j.code, -8)
        },
        _ => panic!("expected failure"),
    }
}

#[test]
fn reorg_at_tip_stops_before_the_offending_block() {
    // From {100, H100}, 101 chains cleanly but 102 names a different parent
    // than 101's hash: 101 is emitted, then the mismatch, and 102 never is.
    let start = id(100, 100);
    let mut ingest = BlockIngest::new(&start, 103);
    ingest.accept(id(101, 101), fetched(100));
    ingest.accept(id(102, 102), fetched(250));
    let first = ingest.try_emit_next().unwrap().unwrap();
    assert_eq!(first.0.height, 101);
    match ingest.try_emit_next() {
        Some(Err(BlockFetchError::BlockMismatch)) => {},
        other => panic!("unexpected: {:?}", other.map(|r| r.map(|(b, _block)| b.height))),
    }
    assert!(ingest.try_emit_next().is_none());
}

#[test]
fn restore_point_prefers_newest_deep_checkpoint() {
    let cps = vec![id(80, 1), id(85, 2), id(88, 3), id(95, 4), id(100, 5)];
    // 101 - 88 = 13 > 12; 95 and 100 are too close.
    assert_eq!(select_restore_point(&cps, 101), 2);
}

#[test]
fn restore_point_accepts_exactly_twelve_behind() {
    // 101 - 89 = 12 qualifies ("at least 12 behind"); 100 does not.
    let cps = vec![id(88, 1), id(89, 2), id(100, 3)];
    assert_eq!(select_restore_point(&cps, 101), 1);
}

#[test]
fn restore_point_falls_back_to_oldest() {
    let cps = vec![id(95, 1), id(98, 2), id(100, 3)];
    assert_eq!(select_restore_point(&cps, 101), 0);
}

#[test]
fn block_events_advance_tip_and_commit_every_twelfth() {
    let mut w = empty_wallet(id(95, 95), vec![id(95, 95)]);
    match handle_block_event(&mut w, BlockEvent::Block(id(96, 96), genesis())) {
        SyncAction::AppliedBlock { commit } => assert!(commit), // 96 == 8 * 12
        _ => panic!("expected apply"),
    }
    assert_eq!(w.tip.height, 96);
    match handle_block_event(&mut w, BlockEvent::Block(id(97, 97), genesis())) {
        SyncAction::AppliedBlock { commit } => assert!(!commit),
        _ => panic!("expected apply"),
    }
    assert_eq!(w.checkpoints.len(), 3);
}

#[test]
fn mismatch_restores_to_checkpoint_and_restarts() {
    let cps = vec![id(80, 1), id(95, 2), id(100, 3)];
    let mut w = empty_wallet(id(100, 3), cps);
    match handle_block_event(&mut w, BlockEvent::Error(BlockFetchError::BlockMismatch)) {
        SyncAction::Restart(p) => {
            assert_eq!(p.height, 80);
            assert_eq!(w.tip.height, 80);
        },
        _ => panic!("expected restart"),
    }
}

#[test]
fn other_fetch_errors_are_fatal() {
    let mut w = empty_wallet(id(100, 3), vec![id(100, 3)]);
    match handle_block_event(&mut w, BlockEvent::Error(BlockFetchError::ChannelClosed)) {
        SyncAction::Fatal(BlockFetchError::ChannelClosed) => {},
        _ => panic!("expected fatal"),
    }
}

#[test]
fn loop_priority_is_shutdown_command_event_sleep() {
    // A clean shutdown carries the closing commit.
    assert!(matches!(next_loop_action(true, true, true), LoopChoice::StopAndCommit));
    assert!(matches!(next_loop_action(false, true, true), LoopChoice::RunCommand));
    assert!(matches!(next_loop_action(false, false, true), LoopChoice::ApplyEvent));
    assert!(matches!(next_loop_action(false, false, false), LoopChoice::Sleep));
}
