use spaces_node::batch::{
    broadcast_batch, choose_fee_rate, fee_bump_response, prepare_batch, BatchErrorKind,
    BuilderOp, Mempool, MempoolTx, PlannedTx, RpcWalletRequest, RpcWalletTxBuilder,
    TransactionTag, TxHint,
};
use spaces_node::chain::{ChainHash, RpcBlockId};
use spaces_node::resolver::{ChainNet, ResolveError};
use spaces_node::rpc::{BitcoinRpcError, JsonRpcError};
use spaces_node::state::{
    space_hash, FullSpaceOut, LiveSnapshot, OutPoint, SName, Space, SpaceOut,
};
use spaces_node::sync::{wallet_handle_commands, AddressKind, CommandOutcome, WalletCommand};
use spaces_node::wallet::{
    get_joint_balance, get_spaces_coin_selection, list_unspent, LocalOutput, OutputStatus,
    SpaceAddress, SpacesWallet,
};

fn op(n: u64, vout: u32) -> OutPoint {
    OutPoint { txid_w0: n, txid_w1: 0, txid_w2: 0, txid_w3: 0, vout }
}

fn out(n: u64, value: u64, status: OutputStatus) -> LocalOutput {
    LocalOutput { outpoint: op(n, 0), value, is_spent: false, external: true, status }
}

fn tip(height: u32) -> RpcBlockId {
    RpcBlockId { height, hash: ChainHash::new(vec![9u8; 32]) }
}

fn wallet_with(
    coins: Vec<LocalOutput>,
    spaces: Vec<LocalOutput>,
    own_scripts: Vec<Vec<u8>>,
    tip_height: u32,
    space_addrs: Vec<SpaceAddress>,
) -> SpacesWallet {
    SpacesWallet {
        coins,
        spaces,
        own_scripts,
        tip: tip(tip_height),
        checkpoints: vec![tip(tip_height)],
        coin_addrs: vec!["bcrt1coinaddr".to_string()],
        next_coin_addr: 0,
        space_addrs,
        next_space_addr: 0,
        auction_outputs: vec![],
    }
}

fn spaddr(tag: u8) -> SpaceAddress {
    SpaceAddress { text: format!("space:51{:02x}", tag), script: vec![0x51, tag] }
}

fn snapshot_row(name: &str, script: Vec<u8>, owned: bool, claim: Option<u32>) -> (Vec<u8>, FullSpaceOut) {
    let parsed = SName::from_str(name).unwrap();
    (
        space_hash(&parsed),
        FullSpaceOut {
            outpoint: op(77, 1),
            spaceout: SpaceOut {
                value: 600,
                script_pubkey: script,
                space: Some(Space { owned, claim_height: claim }),
            },
        },
    )
}

#[test]
fn joint_balance_three_record_wallet() {
    // Coins keychain: 5000 confirmed, 2000 trusted pending, 1000 immature.
    // Spaces keychain: a 3000 coin-value output, a 7000 locked (space) output,
    // a 400 untrusted-pending coin-value output.
    let coins = vec![
        out(1, 5000, OutputStatus::Confirmed),
        out(2, 2000, OutputStatus::TrustedPending),
        out(3, 1000, OutputStatus::Immature),
    ];
    let spaces = vec![
        out(10, 3000, OutputStatus::Confirmed),
        out(11, 7000, OutputStatus::Confirmed),
        out(12, 400, OutputStatus::UntrustedPending),
    ];
    let store = LiveSnapshot {
        spaces: vec![],
        spaceouts: vec![(
            op(11, 0),
            SpaceOut { value: 7000, script_pubkey: vec![0x51], space: Some(Space { owned: true, claim_height: None }) },
        )],
    };
    let w = wallet_with(coins, spaces, vec![], 100, vec![]);
    let b = get_joint_balance(&store, &w);
    assert_eq!(b.confirmed.total, 9000);
    assert_eq!(b.confirmed.spendable, 8000);
    assert_eq!(b.confirmed.immature, 1000);
    assert_eq!(b.confirmed.locked, 7000);
    assert_eq!(b.unconfirmed.total, 2400);
    assert_eq!(b.unconfirmed.locked, 0);
    // Conservation: everything confirmed plus everything pending is the
    // wallet's coins plus its coin-value outputs.
    assert_eq!(
        b.confirmed.total + b.unconfirmed.total,
        8000 + 3400,
    );
    assert!(b.confirmed.spendable <= b.confirmed.total);
}

#[test]
fn list_unspent_unions_coinouts_and_coins() {
    let coins = vec![out(1, 5000, OutputStatus::Confirmed)];
    let spaces = vec![out(10, 3000, OutputStatus::Confirmed), out(11, 7000, OutputStatus::Confirmed)];
    let store = LiveSnapshot {
        spaces: vec![],
        spaceouts: vec![(
            op(11, 0),
            SpaceOut { value: 7000, script_pubkey: vec![0x51], space: None },
        )],
    };
    let w = wallet_with(coins, spaces, vec![], 100, vec![]);
    let u = list_unspent(&w, &store);
    let values: Vec<u64> = u.iter().map(|o| o.value).collect();
    assert_eq!(values, vec![3000, 5000]);
}

#[test]
fn coin_selection_takes_confirmed_coinouts() {
    let spaces = vec![
        out(10, 3000, OutputStatus::Confirmed),
        out(12, 400, OutputStatus::UntrustedPending),
    ];
    let store = LiveSnapshot { spaces: vec![], spaceouts: vec![] };
    let w = wallet_with(vec![], spaces, vec![], 100, vec![]);
    let sel = get_spaces_coin_selection(&w, &store, 33);
    assert_eq!(sel.coinouts.len(), 1);
    assert_eq!(sel.coinouts[0].value, 3000);
    assert_eq!(sel.coinouts[0].satisfaction_weight, 33);
    assert!(sel.coinouts[0].rbf);
}

#[test]
fn fee_rate_fallback_order() {
    assert_eq!(choose_fee_rate(Some(7), Some(3)), Some(7));
    assert_eq!(choose_fee_rate(None, Some(3)), Some(3));
    assert_eq!(choose_fee_rate(None, None), None);
}

fn batch(requests: Vec<RpcWalletRequest>, force: bool) -> RpcWalletTxBuilder {
    RpcWalletTxBuilder { auction_outputs: None, requests, fee_rate: Some(2), dust: None, force }
}

fn empty_mempool() -> Mempool {
    Mempool { opens: vec![] }
}

#[test]
fn register_guard_requires_claim_height() {
    // The space's claim height is 105. Below it a register without force is
    // refused and names the height; at it the batch goes through.
    let script = vec![0x51, 0x99];
    let store = LiveSnapshot {
        spaces: vec![snapshot_row("@example", script.clone(), true, Some(105))],
        spaceouts: vec![],
    };
    let req = || batch(vec![RpcWalletRequest::Register { name: "@example".to_string(), to: None }], false);

    let mut w = wallet_with(vec![], vec![], vec![script.clone()], 100, vec![spaddr(1)]);
    let r = prepare_batch(ChainNet::Regtest, &empty_mempool(), &store, &mut w, &req());
    let e = r.err().unwrap();
    assert_eq!(e.index, 0);
    assert_eq!(e.kind, BatchErrorKind::RegisterClaimHeight(105));

    let mut w2 = wallet_with(vec![], vec![], vec![script.clone()], 105, vec![spaddr(1)]);
    let ops = prepare_batch(ChainNet::Regtest, &empty_mempool(), &store, &mut w2, &req()).unwrap();
    assert_eq!(ops.len(), 1);
    match &ops[0] {
        BuilderOp::RegisterSpace { to_script, .. } => assert_eq!(to_script, &vec![0x51, 1]),
        _ => panic!("expected a register operation"),
    }

    // With force the guard is skipped even below the claim height.
    let mut w3 = wallet_with(vec![], vec![], vec![script], 100, vec![spaddr(1)]);
    let forced = batch(vec![RpcWalletRequest::Register { name: "@example".to_string(), to: None }], true);
    assert!(prepare_batch(ChainNet::Regtest, &empty_mempool(), &store, &mut w3, &forced).is_ok());
}

#[test]
fn register_guard_other_failures() {
    let script = vec![0x51, 0x99];
    let mut w = wallet_with(vec![], vec![], vec![script.clone()], 100, vec![spaddr(1)]);

    // Unknown space.
    let empty_store = LiveSnapshot { spaces: vec![], spaceouts: vec![] };
    let req = batch(vec![RpcWalletRequest::Register { name: "@example".to_string(), to: None }], false);
    let e = prepare_batch(ChainNet::Regtest, &empty_mempool(), &empty_store, &mut w, &req).err().unwrap();
    assert_eq!(e.kind, BatchErrorKind::RegisterNonexistent);

    // Owned but still in pre-auction (no claim height yet).
    let pre_store = LiveSnapshot {
        spaces: vec![snapshot_row("@example", script.clone(), true, None)],
        spaceouts: vec![],
    };
    let e2 = prepare_batch(ChainNet::Regtest, &empty_mempool(), &pre_store, &mut w, &req).err().unwrap();
    assert_eq!(e2.kind, BatchErrorKind::RegisterPreauction);

    // Claimable, but the explicit destination is not a space address.
    let store = LiveSnapshot {
        spaces: vec![snapshot_row("@example", script, true, Some(90))],
        spaceouts: vec![],
    };
    let bad_dest = batch(
        vec![RpcWalletRequest::Register {
            name: "@example".to_string(),
            to: Some("not-a-space-address".to_string()),
        }],
        false,
    );
    let e3 = prepare_batch(ChainNet::Regtest, &empty_mempool(), &store, &mut w, &bad_dest).err().unwrap();
    assert_eq!(e3.kind, BatchErrorKind::RegisterBadDestination);
}

#[test]
fn execute_guards_existence_and_ownership() {
    let script = vec![0x51, 0x99];
    let mut w = wallet_with(vec![], vec![], vec![], 100, vec![spaddr(1)]);

    let empty_store = LiveSnapshot { spaces: vec![], spaceouts: vec![] };
    let req = batch(
        vec![RpcWalletRequest::Execute {
            context: vec!["@ghost".to_string()],
            space_script: vec![],
        }],
        false,
    );
    let e = prepare_batch(ChainNet::Regtest, &empty_mempool(), &empty_store, &mut w, &req).err().unwrap();
    assert_eq!(e.kind, BatchErrorKind::ExecuteNonexistent);

    let store = LiveSnapshot {
        spaces: vec![snapshot_row("@ghost", script, true, Some(90))],
        spaceouts: vec![],
    };
    let e2 = prepare_batch(ChainNet::Regtest, &empty_mempool(), &store, &mut w, &req).err().unwrap();
    assert_eq!(e2.kind, BatchErrorKind::ExecuteNotOwned);
}

#[test]
fn failing_batch_names_the_offending_intent() {
    // Three intents; the second is the bad one.
    let script = vec![0x51, 0x99];
    let store = LiveSnapshot {
        spaces: vec![snapshot_row("@mine", script.clone(), true, Some(90))],
        spaceouts: vec![],
    };
    let mut w = wallet_with(vec![], vec![], vec![script], 100, vec![spaddr(1), spaddr(2)]);
    let req = batch(
        vec![
            RpcWalletRequest::Open { name: "@fresh".to_string(), amount: 1000 },
            RpcWalletRequest::Bid { name: "@ghost".to_string(), amount: 2000 },
            RpcWalletRequest::Open { name: "@another".to_string(), amount: 1000 },
        ],
        false,
    );
    let e = prepare_batch(ChainNet::Regtest, &empty_mempool(), &store, &mut w, &req).err().unwrap();
    assert_eq!(e.index, 1);
    assert_eq!(e.kind, BatchErrorKind::BidNonexistent);
}

#[test]
fn register_rejects_foreign_space() {
    let store = LiveSnapshot {
        spaces: vec![snapshot_row("@example", vec![0x51, 0x99], true, Some(90))],
        spaceouts: vec![],
    };
    let mut w = wallet_with(vec![], vec![], vec![], 100, vec![spaddr(1)]);
    let req = batch(vec![RpcWalletRequest::Register { name: "@example".to_string(), to: None }], false);
    let e = prepare_batch(ChainNet::Regtest, &empty_mempool(), &store, &mut w, &req).err().unwrap();
    assert_eq!(e.kind, BatchErrorKind::RegisterNotOwned);
}

#[test]
fn open_guards_existing_and_mempool() {
    let script = vec![0x51, 0x99];
    let store = LiveSnapshot {
        spaces: vec![snapshot_row("@taken", script, true, None)],
        spaceouts: vec![],
    };
    let mut w = wallet_with(vec![], vec![], vec![], 100, vec![]);
    let existing = batch(vec![RpcWalletRequest::Open { name: "@taken".to_string(), amount: 1000 }], false);
    let e = prepare_batch(ChainNet::Regtest, &empty_mempool(), &store, &mut w, &existing).err().unwrap();
    assert_eq!(e.kind, BatchErrorKind::OpenExists);

    let mem = Mempool {
        opens: vec![(
            "@fresh".to_string(),
            MempoolTx { txid: "aa".to_string(), seen: 42 },
        )],
    };
    let pending = batch(vec![RpcWalletRequest::Open { name: "@fresh".to_string(), amount: 1000 }], false);
    let e2 = prepare_batch(ChainNet::Regtest, &mem, &store, &mut w, &pending).err().unwrap();
    assert_eq!(e2.kind, BatchErrorKind::OpenInMempool);

    // Forcing skips both guards.
    let forced = batch(vec![RpcWalletRequest::Open { name: "@taken".to_string(), amount: 1000 }], true);
    let ops = prepare_batch(ChainNet::Regtest, &mem, &store, &mut w, &forced).unwrap();
    assert_eq!(ops.len(), 1);
}

#[test]
fn bid_requires_existing_space() {
    let store = LiveSnapshot { spaces: vec![], spaceouts: vec![] };
    let mut w = wallet_with(vec![], vec![], vec![], 100, vec![]);
    let req = batch(vec![RpcWalletRequest::Bid { name: "@ghost".to_string(), amount: 2000 }], false);
    let e = prepare_batch(ChainNet::Regtest, &empty_mempool(), &store, &mut w, &req).err().unwrap();
    assert_eq!(e.kind, BatchErrorKind::BidNonexistent);
}

#[test]
fn send_coins_to_unknown_name_is_unresolved() {
    let store = LiveSnapshot { spaces: vec![], spaceouts: vec![] };
    let mut w = wallet_with(vec![], vec![], vec![], 100, vec![]);
    let req = batch(
        vec![RpcWalletRequest::SendCoins { amount: 500, to: "@unknown".to_string() }],
        false,
    );
    let e = prepare_batch(ChainNet::Regtest, &empty_mempool(), &store, &mut w, &req).err().unwrap();
    assert_eq!(e.index, 0);
    assert_eq!(e.kind, BatchErrorKind::Unresolved);

    let garbage = batch(
        vec![RpcWalletRequest::SendCoins { amount: 500, to: "!!".to_string() }],
        false,
    );
    let e2 = prepare_batch(ChainNet::Regtest, &empty_mempool(), &store, &mut w, &garbage).err().unwrap();
    assert_eq!(e2.kind, BatchErrorKind::ResolveFailed(ResolveError::NotAValidNameOrAddress));
}

#[test]
fn transfer_checks_names_recipient_and_ownership() {
    let script = vec![0x51, 0x99];
    let store = LiveSnapshot {
        spaces: vec![snapshot_row("@mine", script.clone(), true, Some(90))],
        spaceouts: vec![],
    };
    let mut w = wallet_with(vec![], vec![], vec![script], 100, vec![]);

    let bad_name = batch(
        vec![RpcWalletRequest::Transfer {
            spaces: vec!["@mine".to_string(), "BAD".to_string()],
            to: "space:51aa".to_string(),
        }],
        false,
    );
    let e = prepare_batch(ChainNet::Regtest, &empty_mempool(), &store, &mut w, &bad_name).err().unwrap();
    assert_eq!(e.kind, BatchErrorKind::MalformedName);

    let foreign = batch(
        vec![RpcWalletRequest::Transfer {
            spaces: vec!["@other".to_string()],
            to: "space:51aa".to_string(),
        }],
        false,
    );
    let e2 = prepare_batch(ChainNet::Regtest, &empty_mempool(), &store, &mut w, &foreign).err().unwrap();
    assert_eq!(e2.kind, BatchErrorKind::NotOwned);

    let good = batch(
        vec![RpcWalletRequest::Transfer {
            spaces: vec!["@mine".to_string()],
            to: "space:51aa".to_string(),
        }],
        false,
    );
    let ops = prepare_batch(ChainNet::Regtest, &empty_mempool(), &store, &mut w, &good).unwrap();
    assert_eq!(ops.len(), 1);
    match &ops[0] {
        BuilderOp::SpaceTransfer { recipient_script, .. } => {
            assert_eq!(recipient_script, &vec![0x51, 0xaa])
        },
        _ => panic!("expected a space transfer"),
    }
}

#[test]
fn execute_allocates_one_recipient_per_context_name() {
    let script = vec![0x51, 0x99];
    let store = LiveSnapshot {
        spaces: vec![snapshot_row("@mine", script.clone(), true, Some(90))],
        spaceouts: vec![],
    };
    let mut w = wallet_with(vec![], vec![], vec![script], 100, vec![spaddr(1), spaddr(2)]);
    let req = batch(
        vec![RpcWalletRequest::Execute {
            context: vec!["@mine".to_string()],
            space_script: vec![0xde, 0xad],
        }],
        false,
    );
    let ops = prepare_batch(ChainNet::Regtest, &empty_mempool(), &store, &mut w, &req).unwrap();
    assert_eq!(ops.len(), 1);
    match &ops[0] {
        BuilderOp::ExecuteSpaces { context, recipients, space_script } => {
            assert_eq!(context.len(), 1);
            assert_eq!(recipients, &vec![vec![0x51, 1]]);
            assert_eq!(space_script, &vec![0xde, 0xad]);
        },
        _ => panic!("expected an execute operation"),
    }
    assert_eq!(w.next_space_addr, 1);
}

fn planned(txid: &str, tags: Vec<TransactionTag>) -> PlannedTx {
    PlannedTx { txid: txid.to_string(), tags, raw_hex: format!("raw-{}", txid) }
}

#[test]
fn batch_broadcast_stops_at_first_failure() {
    // Three built transactions; broadcasting the second fails: the records
    // stop at the failing one, only it carries an error, and the raw hex of
    // the attempted transactions is echoed.
    let txs = vec![
        planned("t0", vec![TransactionTag::Transfer]),
        planned("t1", vec![TransactionTag::Open]),
        planned("t2", vec![TransactionTag::Register]),
    ];
    let mut outcomes: Vec<Result<u64, BitcoinRpcError>> = vec![
        Ok(1),
        Err(BitcoinRpcError::Rpc(JsonRpcError { code: -26, message: "mempool conflict".to_string() })),
        Ok(1),
    ];
    let r = broadcast_batch(&txs, &mut outcomes);
    assert_eq!(r.sent.len(), 2);
    assert!(r.sent[0].error.is_none());
    assert_eq!(r.sent[0].txid, "t0");
    let err = r.sent[1].error.as_ref().unwrap();
    assert_eq!(err.rpc_code, Some(-26));
    assert_eq!(err.message, "mempool conflict");
    assert!(err.hint.is_none());
    let raw = r.raw.unwrap();
    assert_eq!(raw, vec!["raw-t0".to_string(), "raw-t1".to_string()]);
}

#[test]
fn batch_broadcast_clean_run_returns_no_raw() {
    let txs = vec![planned("t0", vec![TransactionTag::Open])];
    let mut outcomes: Vec<Result<u64, BitcoinRpcError>> = vec![Ok(9)];
    let r = broadcast_batch(&txs, &mut outcomes);
    assert_eq!(r.sent.len(), 1);
    assert!(r.sent[0].error.is_none());
    assert!(r.raw.is_none());
}

#[test]
fn competing_bid_hint_names_the_old_rate() {
    let message = "insufficient fee, rejecting replacement \
96bb0d5fa00a35e888ff8afb5b41903955b8f34b5b2de01d874ae579a4d1eba0; \
new feerate 0.01000000 BTC/kvB <= old feerate 0.02000000 BTC/kvB";
    let txs = vec![planned("bid0", vec![TransactionTag::Bid])];
    let mut outcomes: Vec<Result<u64, BitcoinRpcError>> = vec![Err(BitcoinRpcError::Rpc(
        JsonRpcError { code: -26, message: message.to_string() },
    ))];
    let r = broadcast_batch(&txs, &mut outcomes);
    let err = r.sent[0].error.as_ref().unwrap();
    assert_eq!(err.rpc_code, Some(-26));
    assert_eq!(err.message, message);
    assert_eq!(err.hint, Some(TxHint::CompetingBid { min_feerate: 2000 }));
    let rendered = err.hint.unwrap().render();
    assert!(rendered.contains("> 2000 sat/vB"));
}

#[test]
fn replacement_adds_unconfirmed_hint() {
    let txs = vec![planned("bid0", vec![TransactionTag::Bid])];
    let mut outcomes: Vec<Result<u64, BitcoinRpcError>> = vec![Err(BitcoinRpcError::Rpc(
        JsonRpcError { code: -26, message: "replacement-adds-unconfirmed".to_string() },
    ))];
    let r = broadcast_batch(&txs, &mut outcomes);
    let err = r.sent[0].error.as_ref().unwrap();
    assert_eq!(err.hint, Some(TxHint::UnconfirmedAuctionOutputs));
}

#[test]
fn non_bid_failures_carry_no_hint() {
    let message = "insufficient fee, rejecting replacement x; \
new feerate 0.01 BTC/kvB <= old feerate 0.02 BTC/kvB";
    let txs = vec![planned("t0", vec![TransactionTag::Transfer])];
    let mut outcomes: Vec<Result<u64, BitcoinRpcError>> = vec![Err(BitcoinRpcError::Rpc(
        JsonRpcError { code: -26, message: message.to_string() },
    ))];
    let r = broadcast_batch(&txs, &mut outcomes);
    assert!(r.sent[0].error.as_ref().unwrap().hint.is_none());
}

#[test]
fn fee_bump_record_shape() {
    let r = fee_bump_response("feedbeef".to_string());
    assert_eq!(r.len(), 1);
    assert_eq!(r[0].txid, "feedbeef");
    assert_eq!(r[0].tags, vec![TransactionTag::FeeBump]);
    assert!(r[0].error.is_none());
}

#[test]
fn command_dispatch() {
    let store = LiveSnapshot { spaces: vec![], spaceouts: vec![] };
    let mut w = wallet_with(
        vec![out(1, 5000, OutputStatus::Confirmed)],
        vec![],
        vec![],
        321,
        vec![spaddr(7)],
    );
    match wallet_handle_commands(&store, &mut w, WalletCommand::GetInfo) {
        CommandOutcome::Info(info) => assert_eq!(info.tip_height, 321),
        _ => panic!("expected info"),
    }
    match wallet_handle_commands(&store, &mut w, WalletCommand::GetNewAddress { kind: AddressKind::Coin }) {
        CommandOutcome::NewAddress(a) => assert_eq!(a, "bcrt1coinaddr"),
        _ => panic!("expected an address"),
    }
    match wallet_handle_commands(&store, &mut w, WalletCommand::GetNewAddress { kind: AddressKind::Space }) {
        CommandOutcome::NewAddress(a) => assert_eq!(a, "space:5107"),
        _ => panic!("expected an address"),
    }
    match wallet_handle_commands(&store, &mut w, WalletCommand::GetBalance) {
        CommandOutcome::Balance(b) => assert_eq!(b.confirmed.total, 5000),
        _ => panic!("expected a balance"),
    }
    match wallet_handle_commands(&store, &mut w, WalletCommand::ListUnspent) {
        CommandOutcome::Unspent(u) => assert_eq!(u.len(), 1),
        _ => panic!("expected unspent outputs"),
    }
    match wallet_handle_commands(&store, &mut w, WalletCommand::UnloadWallet) {
        CommandOutcome::Unload => {},
        _ => panic!("expected unload"),
    }
}
