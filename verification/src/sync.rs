//! The per-wallet sync actor's decisions: which of its three inputs to act
//! on each turn, how a block event changes the wallet's chain position, and
//! the checkpoint it rewinds to when the fetcher signals a reorganization.
//!
//! The actor's thread, its channels and the 10 ms idle sleep live outside
//! the crate and call one step at a time.

use vstd::prelude::*;

use crate::batch::RpcWalletTxBuilder;
use crate::chain::RpcBlockId;
use crate::fetcher::{BlockEvent, BlockFetchError};
use crate::state::{FullSpaceOut, LiveSnapshot};
use crate::wallet::{
    get_joint_balance, keep_with_space, lemma_listed_is_kept, list_unspent,
    listed_space_candidates, matches_snapshot_row, space_candidates, spaces_confirmed_value,
    spaces_pending_value, sum_status, DoubleUtxo, JointBalance, LocalOutput, OutputStatus,
    SpacesWallet,
};

verus! {

/// A wallet commits its storage at least once per this many applied blocks.
pub const COMMIT_INTERVAL: u32 = 12;

/// A reorg may be absorbed by rewinding at least this many blocks.
pub const CHECKPOINT_WINDOW: u32 = 12;

/// Index of the restore checkpoint, scanning from the newest (last) to the
/// oldest: the first whose height is at least `CHECKPOINT_WINDOW` below
/// the tip; the oldest (index zero) if none is.
pub open spec fn restore_idx(cps: Seq<RpcBlockId>, tip_height: u32, i: int) -> int
    decreases i + 1,
{
    if i < 0 {
        0
    } else if tip_height - cps[i].height >= CHECKPOINT_WINDOW {
        i
    } else {
        restore_idx(cps, tip_height, i - 1)
    }
}

/// Picks the checkpoint to rewind to after a mismatch: the newest
/// checkpoint at least `CHECKPOINT_WINDOW` blocks below the tip, or the
/// oldest one if none is deep enough.
pub fn select_restore_point(checkpoints: &Vec<RpcBlockId>, tip_height: u32) -> (r: usize)
    requires
        checkpoints@.len() > 0,
        forall|j: int|
            0 <= j < checkpoints@.len() ==> (#[trigger] checkpoints@[j]).height <= tip_height,
    ensures
        r as int == restore_idx(checkpoints@, tip_height, checkpoints@.len() - 1),
        r < checkpoints@.len(),
{
    let n: usize = checkpoints.len();
    let mut i: usize = n;
    while i > 0
        invariant
            n == checkpoints@.len(),
            0 <= i <= n,
            forall|j: int|
                0 <= j < checkpoints@.len() ==> (#[trigger] checkpoints@[j]).height <= tip_height,
            restore_idx(checkpoints@, tip_height, n - 1) == restore_idx(
                checkpoints@,
                tip_height,
                i - 1,
            ),
        decreases i,
    {
        i -= 1;
        if tip_height - checkpoints[i].height >= CHECKPOINT_WINDOW {
            return i;
        }
    }
    0
}

/// What the actor does after one block event.
pub enum SyncAction {
    /// The block was applied: the caller feeds it to the storage layer and,
    /// when asked, commits.
    AppliedBlock { commit: bool },
    /// A mismatch: restart the fetcher from this block.
    Restart(RpcBlockId),
    /// Any other fetch error ends the actor.
    Fatal(BlockFetchError),
}

/// Applies one block event to the wallet's chain position. A block advances
/// the tip and becomes a checkpoint, committing every
/// [`COMMIT_INTERVAL`]th height; a mismatch rewinds the tip to the restore
/// checkpoint and asks for a restart from it; any other error is fatal.
pub fn handle_block_event(wallet: &mut SpacesWallet, event: BlockEvent) -> (r: SyncAction)
    requires
        ({
            match event {
                BlockEvent::Error(BlockFetchError::BlockMismatch) => old(
                    wallet,
                ).checkpoints@.len() > 0 && forall|j: int|
                    0 <= j < old(wallet).checkpoints@.len() ==> (#[trigger] old(
                        wallet,
                    ).checkpoints@[j]).height <= old(wallet).tip.height,
                _ => true,
            }
        }),
    ensures
        final(wallet).coins == old(wallet).coins,
        final(wallet).spaces == old(wallet).spaces,
        final(wallet).own_scripts == old(wallet).own_scripts,
        final(wallet).coin_addrs == old(wallet).coin_addrs,
        final(wallet).next_coin_addr == old(wallet).next_coin_addr,
        final(wallet).space_addrs == old(wallet).space_addrs,
        final(wallet).next_space_addr == old(wallet).next_space_addr,
        final(wallet).auction_outputs == old(wallet).auction_outputs,
        match event {
            BlockEvent::Block(id, _) => (r matches SyncAction::AppliedBlock { commit } && commit
                == (id.height % COMMIT_INTERVAL == 0)) && final(wallet).tip.height == id.height
                && final(wallet).tip.hash.bytes@ == id.hash.bytes@ && final(wallet).checkpoints@.len()
                == old(wallet).checkpoints@.len() + 1 && final(wallet).checkpoints@.last().height
                == id.height,
            BlockEvent::Error(e) => match e {
                BlockFetchError::BlockMismatch => {
                    let k = restore_idx(
                        old(wallet).checkpoints@,
                        old(wallet).tip.height,
                        old(wallet).checkpoints@.len() - 1,
                    );
                    (r matches SyncAction::Restart(p) && p.height == old(
                        wallet,
                    ).checkpoints@[k].height && p.hash.bytes@ == old(
                        wallet,
                    ).checkpoints@[k].hash.bytes@) && final(wallet).tip.height == old(
                        wallet,
                    ).checkpoints@[k].height && final(wallet).checkpoints == old(wallet).checkpoints
                },
                _ => (r matches SyncAction::Fatal(f) && f == e) && final(wallet).tip == old(
                    wallet,
                ).tip && final(wallet).checkpoints == old(wallet).checkpoints,
            },
        },
{
    match event {
        BlockEvent::Block(id, _block) => {
            let commit = id.height % COMMIT_INTERVAL == 0;
            let cp = id.duplicate();
            wallet.tip = id;
            wallet.checkpoints.push(cp);
            SyncAction::AppliedBlock { commit }
        },
        BlockEvent::Error(e) => {
            match e {
                BlockFetchError::BlockMismatch => {
                    let k = select_restore_point(&wallet.checkpoints, wallet.tip.height);
                    let point = wallet.checkpoints[k].duplicate();
                    wallet.tip = point.duplicate();
                    SyncAction::Restart(point)
                },
                other => SyncAction::Fatal(other),
            }
        },
    }
}

/// Which input the actor serves this turn: shutdown wins, then a command,
/// then a block event; with nothing pending it sleeps.
pub enum LoopChoice {
    /// Stop the fetcher, commit the wallet storage once more, and wind
    /// down: a clean shutdown always commits.
    StopAndCommit,
    RunCommand,
    ApplyEvent,
    Sleep,
}

/// The actor's cooperative priority: shutdown (with its closing commit),
/// then commands, then block events, then a short sleep.
pub fn next_loop_action(shutdown: bool, has_command: bool, has_event: bool) -> (r: LoopChoice)
    ensures
        shutdown ==> r is StopAndCommit,
        !shutdown && has_command ==> r is RunCommand,
        !shutdown && !has_command && has_event ==> r is ApplyEvent,
        !shutdown && !has_command && !has_event ==> r is Sleep,
{
    if shutdown {
        LoopChoice::StopAndCommit
    } else if has_command {
        LoopChoice::RunCommand
    } else if has_event {
        LoopChoice::ApplyEvent
    } else {
        LoopChoice::Sleep
    }
}

/// Which keychain a new address is drawn from.
#[derive(Debug, Clone, Copy, PartialEq, Eq, Structural)]
pub enum AddressKind {
    Coin,
    Space,
}

/// What `GetInfo` reports of the wallet.
#[derive(Debug, Clone, Copy, PartialEq, Eq, Structural)]
pub struct WalletInfo {
    pub tip_height: u32,
}

/// A command sent to a wallet's sync actor.
#[derive(Debug)]
pub enum WalletCommand {
    GetInfo,
    BatchTx { request: RpcWalletTxBuilder },
    GetNewAddress { kind: AddressKind },
    BumpFee { txid: String, fee_rate: u64 },
    ListSpaces,
    ListAuctionOutputs,
    ListUnspent,
    GetBalance,
    UnloadWallet,
}

/// A command's result. Batches and fee bumps need the transaction builder
/// and the broadcast path, which run outside the actor's pure step: the
/// dispatch hands them back to the caller.
pub enum CommandOutcome {
    Info(WalletInfo),
    NewAddress(String),
    Unspent(Vec<LocalOutput>),
    Spaces(Vec<FullSpaceOut>),
    AuctionOutputs(Vec<DoubleUtxo>),
    Balance(JointBalance),
    NeedsBatch(RpcWalletTxBuilder),
    NeedsFeeBump { txid: String, fee_rate: u64 },
    Unload,
}

/// Serves one wallet command. Listing, balance and address commands are
/// answered in place; batch and fee-bump commands are handed back for the
/// builder and the broadcast path; unload asks the caller to wind down.
pub fn wallet_handle_commands(
    store: &LiveSnapshot,
    wallet: &mut SpacesWallet,
    command: WalletCommand,
) -> (r: CommandOutcome)
    requires
        (command matches WalletCommand::GetBalance ==> (forall|j: int|
            0 <= j < old(wallet).spaces@.len() ==> (#[trigger] old(wallet).spaces@[j]).status
                != OutputStatus::Immature) && crate::wallet::unspent_sum(old(wallet).coins@)
            + crate::wallet::unspent_sum(old(wallet).spaces@) <= u64::MAX),
        (command matches WalletCommand::GetNewAddress { kind } ==> (kind
            matches AddressKind::Coin ==> old(wallet).next_coin_addr < old(
            wallet,
        ).coin_addrs@.len()) && (kind matches AddressKind::Space ==> old(wallet).next_space_addr
            < old(wallet).space_addrs@.len())),
    ensures
        final(wallet).coins == old(wallet).coins,
        final(wallet).spaces == old(wallet).spaces,
        final(wallet).own_scripts == old(wallet).own_scripts,
        final(wallet).tip == old(wallet).tip,
        final(wallet).checkpoints == old(wallet).checkpoints,
        final(wallet).auction_outputs == old(wallet).auction_outputs,
        match command {
            WalletCommand::GetInfo => r matches CommandOutcome::Info(info) && info.tip_height
                == old(wallet).tip.height,
            WalletCommand::BatchTx { request } => r matches CommandOutcome::NeedsBatch(b) && b
                == request,
            WalletCommand::GetNewAddress { kind } => r matches CommandOutcome::NewAddress(a) && (
            match kind {
                AddressKind::Coin => a@ == old(wallet).coin_addrs@[old(
                    wallet,
                ).next_coin_addr as int]@,
                AddressKind::Space => a@ == old(wallet).space_addrs@[old(
                    wallet,
                ).next_space_addr as int].text@,
            }),
            WalletCommand::BumpFee { txid, fee_rate } => r matches CommandOutcome::NeedsFeeBump {
                txid: t,
                fee_rate: f,
            } && t == txid && f == fee_rate,
            WalletCommand::ListSpaces => r matches CommandOutcome::Spaces(s) && s@.len()
                == listed_space_candidates(old(wallet).spaces@, store.spaceouts@).len() && forall|
                k: int,
            |
                0 <= k < s@.len() ==> matches_snapshot_row(
                    #[trigger] s@[k],
                    listed_space_candidates(old(wallet).spaces@, store.spaceouts@)[k],
                    store.spaceouts@,
                ) && s@[k].spaceout.space is Some,
            WalletCommand::ListAuctionOutputs => r matches CommandOutcome::AuctionOutputs(a) && a@
                == old(wallet).auction_outputs@,
            WalletCommand::ListUnspent => r matches CommandOutcome::Unspent(u) && u@
                == crate::wallet::coinout_filter(old(wallet).spaces@, store.spaceouts@)
                + crate::wallet::unspent_filter(old(wallet).coins@),
            WalletCommand::GetBalance => r matches CommandOutcome::Balance(b) && ({
                let sc = spaces_confirmed_value(old(wallet).spaces@, store.spaceouts@);
                let sp = spaces_pending_value(old(wallet).spaces@, store.spaceouts@);
                let sconf = sum_status(old(wallet).spaces@, OutputStatus::Confirmed);
                let stp = sum_status(old(wallet).spaces@, OutputStatus::TrustedPending);
                let sup = sum_status(old(wallet).spaces@, OutputStatus::UntrustedPending);
                let cim = sum_status(old(wallet).coins@, OutputStatus::Immature);
                let ctp = sum_status(old(wallet).coins@, OutputStatus::TrustedPending);
                let cup = sum_status(old(wallet).coins@, OutputStatus::UntrustedPending);
                let cconf = sum_status(old(wallet).coins@, OutputStatus::Confirmed);
                &&& b.confirmed.total as nat == sc + cconf + cim
                &&& b.confirmed.spendable as nat == sc + cconf
                &&& b.confirmed.immature as nat == cim
                &&& b.confirmed.locked as nat == sconf - sc
                &&& b.unconfirmed.total as nat == sp + ctp + cup
                &&& b.unconfirmed.locked as nat == (stp + sup) - sp
            }),
            WalletCommand::UnloadWallet => r is Unload,
        },
{
    match command {
        WalletCommand::GetInfo => CommandOutcome::Info(WalletInfo { tip_height: wallet.tip.height }),
        WalletCommand::BatchTx { request } => CommandOutcome::NeedsBatch(request),
        WalletCommand::GetNewAddress { kind } => {
            let addr = match kind {
                AddressKind::Coin => wallet.next_unused_coin_address(),
                AddressKind::Space => {
                    let a = wallet.next_unused_space_address();
                    a.text
                },
            };
            CommandOutcome::NewAddress(addr)
        },
        WalletCommand::BumpFee { txid, fee_rate } => CommandOutcome::NeedsFeeBump {
            txid,
            fee_rate,
        },
        WalletCommand::ListSpaces => {
            let ghost rows = store.spaceouts@;
            let ghost cands = space_candidates(wallet.spaces@, rows);
            let (spaceouts, _coinouts) = crate::wallet::get_space_outputs(wallet, store);
            let mut kept: Vec<FullSpaceOut> = Vec::new();
            let n: usize = spaceouts.len();
            proof {
                assert(cands.take(0) =~= Seq::<LocalOutput>::empty());
            }
            let mut i: usize = 0;
            while i < n
                invariant
                    rows == store.spaceouts@,
                    cands == space_candidates(wallet.spaces@, rows),
                    wallet == old(wallet),
                    n == spaceouts@.len(),
                    n == cands.len(),
                    0 <= i <= n,
                    forall|k: int|
                        0 <= k < n ==> matches_snapshot_row(
                            #[trigger] spaceouts@[k],
                            cands[k],
                            rows,
                        ),
                    kept@.len() == keep_with_space(cands.take(i as int), rows).len(),
                    forall|k: int|
                        0 <= k < kept@.len() ==> matches_snapshot_row(
                            #[trigger] kept@[k],
                            keep_with_space(cands.take(i as int), rows)[k],
                            rows,
                        ) && kept@[k].spaceout.space is Some,
                decreases n - i,
            {
                let ghost done = cands.take(i as int);
                proof {
                    assert(cands.take(i as int + 1).drop_last() =~= done);
                    assert(cands.take(i as int + 1).last() == cands[i as int]);
                }
                if spaceouts[i].spaceout.space.is_some() {
                    let dup = spaceouts[i].duplicate();
                    kept.push(dup);
                    proof {
                        assert(keep_with_space(cands.take(i as int + 1), rows) == keep_with_space(
                            done,
                            rows,
                        ).push(cands[i as int]));
                    }
                } else {
                    proof {
                        assert(keep_with_space(cands.take(i as int + 1), rows) == keep_with_space(
                            done,
                            rows,
                        ));
                    }
                }
                i += 1;
            }
            proof {
                assert(cands.take(n as int) =~= cands);
                lemma_listed_is_kept(wallet.spaces@, rows);
            }
            CommandOutcome::Spaces(kept)
        },
        WalletCommand::ListAuctionOutputs => {
            let mut out: Vec<DoubleUtxo> = Vec::new();
            let n: usize = wallet.auction_outputs.len();
            let mut i: usize = 0;
            while i < n
                invariant
                    n == wallet.auction_outputs@.len(),
                    0 <= i <= n,
                    out@ == wallet.auction_outputs@.take(i as int),
                    wallet == old(wallet),
                decreases n - i,
            {
                out.push(wallet.auction_outputs[i]);
                proof {
                    assert(out@ =~= wallet.auction_outputs@.take(i as int + 1));
                }
                i += 1;
            }
            proof {
                assert(wallet.auction_outputs@.take(n as int) =~= wallet.auction_outputs@);
            }
            CommandOutcome::AuctionOutputs(out)
        },
        WalletCommand::ListUnspent => CommandOutcome::Unspent(list_unspent(wallet, store)),
        WalletCommand::GetBalance => CommandOutcome::Balance(get_joint_balance(store, wallet)),
        WalletCommand::UnloadWallet => CommandOutcome::Unload,
    }
}

} // verus!
