//! The batch transaction builder: validating a multi-intent request against
//! the state snapshot, the mempool view and the wallet, and recording the
//! outcome of broadcasting the built transactions one by one, stopping at
//! the first failure.
//!
//! Transaction construction and signing themselves live in the descriptor
//! wallet outside the crate: the plan built here is handed over, and the
//! built transactions come back as plain values for the broadcast record.

use vstd::prelude::*;

use crate::fees::{contains_seq, fee_rate_spec};
use crate::resolver::{net_code, resolve, resolve_spec, ChainNet, ResolveError};
use crate::rpc::BitcoinRpcError;
use crate::state::{
    find_space, sha256_of, sname_encoding, sname_parses, FullSpaceOut, LiveSnapshot, SName,
};
use crate::wallet::{owns_script, SpacesWallet};

verus! {

use vstd::string::StringSliceAdditionalSpecFns;

/// The UTF-8 bytes of an owned string.
pub open spec fn str_bytes(s: String) -> Seq<u8> {
    vstd::utf8::encode_utf8(s@)
}

/// What a built transaction was for.
#[derive(Debug, Clone, Copy, PartialEq, Eq, Structural)]
pub enum TransactionTag {
    Open,
    Bid,
    Register,
    Transfer,
    Execute,
    FeeBump,
}

/// A transaction observed in the mempool: its id in display hex and when it
/// was first seen.
#[derive(Debug)]
pub struct MempoolTx {
    pub txid: String,
    pub seen: u64,
}

/// The mempool view the builder consults: pending `open` transactions keyed
/// by the space name they open.
#[derive(Debug)]
pub struct Mempool {
    pub opens: Vec<(String, MempoolTx)>,
}

/// First pending open for a name.
pub open spec fn find_open(rows: Seq<(String, MempoolTx)>, name: Seq<char>) -> Option<MempoolTx>
    decreases rows.len(),
{
    if rows.len() == 0 {
        None
    } else if rows[0].0@ == name {
        Some(rows[0].1)
    } else {
        find_open(rows.drop_first(), name)
    }
}

impl Mempool {
    /// The pending open for a name, if one is in the mempool.
    pub fn get_open(&self, name: &String) -> (r: Option<&MempoolTx>)
        ensures
            match r {
                Some(m) => find_open(self.opens@, name@) == Some(*m),
                None => find_open(self.opens@, name@) is None,
            },
    {
        let n: usize = self.opens.len();
        proof {
            assert(self.opens@.skip(0) =~= self.opens@);
        }
        let mut i: usize = 0;
        while i < n
            invariant
                n == self.opens@.len(),
                0 <= i <= n,
                find_open(self.opens@, name@) == find_open(self.opens@.skip(i as int), name@),
            decreases n - i,
        {
            proof {
                assert(self.opens@.skip(i as int)[0] == self.opens@[i as int]);
                assert(self.opens@.skip(i as int).drop_first() =~= self.opens@.skip(i as int + 1));
            }
            if self.opens[i].0 == *name {
                return Some(&self.opens[i].1);
            }
            i += 1;
        }
        proof {
            assert(self.opens@.skip(n as int) =~= Seq::<(String, MempoolTx)>::empty());
        }
        None
    }
}

/// One intent of a batch request.
#[derive(Debug)]
pub enum RpcWalletRequest {
    SendCoins { amount: u64, to: String },
    Transfer { spaces: Vec<String>, to: String },
    Open { name: String, amount: u64 },
    Bid { name: String, amount: u64 },
    Register { name: String, to: Option<String> },
    Execute { context: Vec<String>, space_script: Vec<u8> },
}

/// A batch request: an optional fee rate, an optional pre-split
/// auction-output budget, a force flag, a dust limit, and the intents in
/// order.
#[derive(Debug)]
pub struct RpcWalletTxBuilder {
    pub auction_outputs: Option<u32>,
    pub requests: Vec<RpcWalletRequest>,
    pub fee_rate: Option<u64>,
    pub dust: Option<u64>,
    pub force: bool,
}

/// Why one intent was refused.
#[derive(Debug, Clone, Copy, PartialEq, Eq, Structural)]
pub enum BatchErrorKind {
    /// A recipient could not even be classified.
    ResolveFailed(ResolveError),
    /// A recipient was a well-formed space name the snapshot does not know.
    Unresolved,
    /// A space name is malformed.
    MalformedName,
    /// A space that must be owned by this wallet is missing or not its own.
    NotOwned,
    /// The space to open already exists.
    OpenExists,
    /// An open for this name is already pending in the mempool.
    OpenInMempool,
    /// The space to bid on does not exist.
    BidNonexistent,
    /// The space to register does not exist.
    RegisterNonexistent,
    /// The space to register is not owned by this wallet.
    RegisterNotOwned,
    /// The space is still in pre-auction and cannot be registered.
    RegisterPreauction,
    /// The claim height has not been reached; it is carried along.
    RegisterClaimHeight(u32),
    /// The explicit register destination is not a space address.
    RegisterBadDestination,
    /// A space named in an execute context does not exist.
    ExecuteNonexistent,
    /// A space named in an execute context is not owned by this wallet.
    ExecuteNotOwned,
}

/// The failing intent and why it failed.
#[derive(Debug, Clone, Copy, PartialEq, Eq, Structural)]
pub struct BatchIntentError {
    pub index: usize,
    pub kind: BatchErrorKind,
}

/// One queued operation of the plan handed to the transaction builder.
#[derive(Debug)]
pub enum BuilderOp {
    CoinTransfer { amount: u64, recipient_script: Vec<u8> },
    SpaceTransfer { space: FullSpaceOut, recipient_script: Vec<u8> },
    OpenSpace { name: String, amount: u64 },
    BidSpace { space: FullSpaceOut, amount: u64 },
    RegisterSpace { space: FullSpaceOut, to_script: Vec<u8> },
    ExecuteSpaces { context: Vec<FullSpaceOut>, recipients: Vec<Vec<u8>>, space_script: Vec<u8> },
}

/// The space-hash of a name given in text (skipping the `@`).
pub open spec fn hash_of_name(name: Seq<u8>) -> Seq<u8> {
    sha256_of(sname_encoding(name.skip(1)))
}

/// Whether the wallet owns the space a name names, per snapshot.
pub open spec fn transfer_name_ok(
    spaces: Seq<(Vec<u8>, FullSpaceOut)>,
    own: Seq<Vec<u8>>,
    name: Seq<u8>,
) -> bool {
    match find_space(spaces, hash_of_name(name)) {
        Some(full) => match full.spaceout.space {
            Some(sp) => sp.owned && owns_script(own, full.spaceout.script_pubkey@),
            None => false,
        },
        None => false,
    }
}

/// First problem with an execute context, scanning names front to back.
pub open spec fn context_check(
    spaces: Seq<(Vec<u8>, FullSpaceOut)>,
    own: Seq<Vec<u8>>,
    ctx: Seq<String>,
) -> Option<BatchErrorKind>
    decreases ctx.len(),
{
    if ctx.len() == 0 {
        None
    } else if !sname_parses(str_bytes(ctx[0])) {
        Some(BatchErrorKind::MalformedName)
    } else if find_space(spaces, hash_of_name(str_bytes(ctx[0]))) is None {
        Some(BatchErrorKind::ExecuteNonexistent)
    } else if !(find_space(spaces, hash_of_name(str_bytes(ctx[0]))) matches Some(f)
        && owns_script(own, f.spaceout.script_pubkey@)) {
        Some(BatchErrorKind::ExecuteNotOwned)
    } else {
        context_check(spaces, own, ctx.drop_first())
    }
}

/// Validation of one coin send: the recipient must resolve (in any form).
pub open spec fn send_check(
    net: int,
    spaces: Seq<(Vec<u8>, FullSpaceOut)>,
    to: String,
) -> Option<BatchErrorKind> {
    match resolve_spec(net, spaces, to@, str_bytes(to), false) {
        Err(e) => Some(BatchErrorKind::ResolveFailed(e)),
        Ok(None) => Some(BatchErrorKind::Unresolved),
        Ok(Some(_)) => None,
    }
}

/// Validation of a space transfer: every name well formed, the recipient a
/// space address, and every named space owned by this wallet.
pub open spec fn transfer_check(
    net: int,
    spaces: Seq<(Vec<u8>, FullSpaceOut)>,
    own: Seq<Vec<u8>>,
    names: Seq<String>,
    to: String,
) -> Option<BatchErrorKind> {
    if exists|j: int| 0 <= j < names.len() && !sname_parses(str_bytes(#[trigger] names[j])) {
        Some(BatchErrorKind::MalformedName)
    } else {
        match resolve_spec(net, spaces, to@, str_bytes(to), true) {
            Err(e) => Some(BatchErrorKind::ResolveFailed(e)),
            Ok(None) => Some(BatchErrorKind::Unresolved),
            Ok(Some(_)) => {
                if exists|j: int|
                    0 <= j < names.len() && !transfer_name_ok(
                        spaces,
                        own,
                        str_bytes(#[trigger] names[j]),
                    ) {
                    Some(BatchErrorKind::NotOwned)
                } else {
                    None
                }
            },
        }
    }
}

/// Validation of an open: unless forced, the space must not exist yet and
/// no open for it may sit in the mempool.
pub open spec fn open_check(
    mempool: Seq<(String, MempoolTx)>,
    spaces: Seq<(Vec<u8>, FullSpaceOut)>,
    force: bool,
    name: String,
) -> Option<BatchErrorKind> {
    if !sname_parses(str_bytes(name)) {
        Some(BatchErrorKind::MalformedName)
    } else if !force && find_space(spaces, hash_of_name(str_bytes(name))) is Some {
        Some(BatchErrorKind::OpenExists)
    } else if !force && find_open(mempool, name@) is Some {
        Some(BatchErrorKind::OpenInMempool)
    } else {
        None
    }
}

/// Validation of a bid: the space must exist.
pub open spec fn bid_check(
    spaces: Seq<(Vec<u8>, FullSpaceOut)>,
    name: String,
) -> Option<BatchErrorKind> {
    if !sname_parses(str_bytes(name)) {
        Some(BatchErrorKind::MalformedName)
    } else if find_space(spaces, hash_of_name(str_bytes(name))) is None {
        Some(BatchErrorKind::BidNonexistent)
    } else {
        None
    }
}

/// Validation of a register: the space must exist and be owned; unless
/// forced, its auction must have reached the claim phase and the claim
/// height must be at or below the wallet tip; an explicit destination must
/// be a space address.
pub open spec fn register_check(
    spaces: Seq<(Vec<u8>, FullSpaceOut)>,
    own: Seq<Vec<u8>>,
    tip_height: u32,
    force: bool,
    name: String,
    to: Option<String>,
) -> Option<BatchErrorKind> {
    if !sname_parses(str_bytes(name)) {
        Some(BatchErrorKind::MalformedName)
    } else {
        match find_space(spaces, hash_of_name(str_bytes(name))) {
            None => Some(BatchErrorKind::RegisterNonexistent),
            Some(full) => {
                if !owns_script(own, full.spaceout.script_pubkey@) {
                    Some(BatchErrorKind::RegisterNotOwned)
                } else {
                    let claim_gate = if !force {
                        match full.spaceout.space {
                            None => Some(BatchErrorKind::RegisterPreauction),
                            Some(sp) => match sp.claim_height {
                                None => Some(BatchErrorKind::RegisterPreauction),
                                Some(h) => if h > tip_height {
                                    Some(BatchErrorKind::RegisterClaimHeight(h))
                                } else {
                                    None
                                },
                            },
                        }
                    } else {
                        None
                    };
                    if claim_gate is Some {
                        claim_gate
                    } else {
                        match to {
                            Some(addr) => if crate::resolver::space_address_script(
                                str_bytes(addr),
                            ) is None {
                                Some(BatchErrorKind::RegisterBadDestination)
                            } else {
                                None
                            },
                            None => None,
                        }
                    }
                }
            },
        }
    }
}

/// What is wrong with one intent, if anything, exactly as the builder
/// checks it.
pub open spec fn request_check(
    net: int,
    mempool: Seq<(String, MempoolTx)>,
    spaces: Seq<(Vec<u8>, FullSpaceOut)>,
    own: Seq<Vec<u8>>,
    tip_height: u32,
    force: bool,
    req: RpcWalletRequest,
) -> Option<BatchErrorKind> {
    match req {
        RpcWalletRequest::SendCoins { amount, to } => send_check(net, spaces, to),
        RpcWalletRequest::Transfer { spaces: names, to } => transfer_check(
            net,
            spaces,
            own,
            names@,
            to,
        ),
        RpcWalletRequest::Open { name, amount } => open_check(mempool, spaces, force, name),
        RpcWalletRequest::Bid { name, amount } => bid_check(spaces, name),
        RpcWalletRequest::Register { name, to } => register_check(
            spaces,
            own,
            tip_height,
            force,
            name,
            to,
        ),
        RpcWalletRequest::Execute { context, space_script } => context_check(
            spaces,
            own,
            context@,
        ),
    }
}

/// The first failing intent, scanning in order from `i`.
pub open spec fn first_request_error(
    net: int,
    mempool: Seq<(String, MempoolTx)>,
    spaces: Seq<(Vec<u8>, FullSpaceOut)>,
    own: Seq<Vec<u8>>,
    tip_height: u32,
    force: bool,
    reqs: Seq<RpcWalletRequest>,
    i: int,
) -> Option<(int, BatchErrorKind)>
    decreases reqs.len() - i,
{
    if i < 0 || i >= reqs.len() {
        None
    } else {
        match request_check(net, mempool, spaces, own, tip_height, force, reqs[i]) {
            Some(k) => Some((i, k)),
            None => first_request_error(net, mempool, spaces, own, tip_height, force, reqs, i + 1),
        }
    }
}

/// How many fresh space addresses a request list may consume: one for a
/// register without an explicit destination, one per execute context name.
pub open spec fn addr_need(reqs: Seq<RpcWalletRequest>) -> nat
    decreases reqs.len(),
{
    if reqs.len() == 0 {
        0
    } else {
        addr_need(reqs.drop_last()) + request_addr_need(reqs.last())
    }
}

proof fn lemma_addr_need_take(reqs: Seq<RpcWalletRequest>, i: int)
    requires
        0 <= i <= reqs.len(),
    ensures
        addr_need(reqs.take(i)) <= addr_need(reqs),
    decreases reqs.len() - i,
{
    if i < reqs.len() {
        lemma_addr_need_take(reqs, i + 1);
        assert(reqs.take(i + 1).drop_last() =~= reqs.take(i));
    } else {
        assert(reqs.take(i) =~= reqs);
    }
}


/// The abstract content of a space output row, as the plan records it.
pub struct FullSpaceOutView {
    pub outpoint: crate::state::OutPoint,
    pub value: u64,
    pub script_pubkey: Seq<u8>,
    pub space: Option<crate::state::Space>,
}

pub open spec fn fso_view(f: FullSpaceOut) -> FullSpaceOutView {
    FullSpaceOutView {
        outpoint: f.outpoint,
        value: f.spaceout.value,
        script_pubkey: f.spaceout.script_pubkey@,
        space: f.spaceout.space,
    }
}

/// The snapshot row a name names, as a view; nothing when the name is
/// unknown.
pub open spec fn row_view(
    spaces: Seq<(Vec<u8>, FullSpaceOut)>,
    name: String,
) -> Option<FullSpaceOutView> {
    match find_space(spaces, hash_of_name(str_bytes(name))) {
        Some(f) => Some(fso_view(f)),
        None => None,
    }
}

/// The script a recipient resolves to; empty when resolution fails (a plan
/// is only produced when it does not).
pub open spec fn resolved_script(
    net: int,
    spaces: Seq<(Vec<u8>, FullSpaceOut)>,
    to: String,
    require_space_address: bool,
) -> Seq<u8> {
    match resolve_spec(net, spaces, to@, str_bytes(to), require_space_address) {
        Ok(o) => match o {
            Some(b) => b,
            None => Seq::empty(),
        },
        Err(e) => Seq::empty(),
    }
}

/// The visible content of a queued operation: its kind, the space row it
/// spends, where its money or space goes, and its plain payload fields.
pub enum OpShape {
    Coin { amount: u64, recipient: Seq<u8> },
    Space { recipient: Seq<u8>, space: Option<FullSpaceOutView> },
    Open { name: Seq<char>, amount: u64 },
    Bid { amount: u64, space: Option<FullSpaceOutView> },
    Register { space: Option<FullSpaceOutView>, to_script: Option<Seq<u8>> },
    Execute {
        context: Seq<Option<FullSpaceOutView>>,
        recipients: Seq<Seq<u8>>,
        space_script: Seq<u8>,
    },
}

pub open spec fn op_shape(op: BuilderOp) -> OpShape {
    match op {
        BuilderOp::CoinTransfer { amount, recipient_script } => OpShape::Coin {
            amount,
            recipient: recipient_script@,
        },
        BuilderOp::SpaceTransfer { space, recipient_script } => OpShape::Space {
            recipient: recipient_script@,
            space: Some(fso_view(space)),
        },
        BuilderOp::OpenSpace { name, amount } => OpShape::Open { name: name@, amount },
        BuilderOp::BidSpace { space, amount } => OpShape::Bid {
            amount,
            space: Some(fso_view(space)),
        },
        BuilderOp::RegisterSpace { space, to_script } => OpShape::Register {
            space: Some(fso_view(space)),
            to_script: Some(to_script@),
        },
        BuilderOp::ExecuteSpaces { context, recipients, space_script } => OpShape::Execute {
            context: Seq::new(context@.len(), |j: int| Some(fso_view(context@[j]))),
            recipients: Seq::new(recipients@.len(), |j: int| recipients@[j]@),
            space_script: space_script@,
        },
    }
}

/// The operation shapes one intent queues, drawing default destinations
/// from the pre-derived address queue at `cursor`.
pub open spec fn request_shapes(
    net: int,
    spaces: Seq<(Vec<u8>, FullSpaceOut)>,
    addrs: Seq<crate::wallet::SpaceAddress>,
    cursor: int,
    req: RpcWalletRequest,
) -> Seq<OpShape> {
    match req {
        RpcWalletRequest::SendCoins { amount, to } => seq![
            OpShape::Coin { amount, recipient: resolved_script(net, spaces, to, false) },
        ],
        RpcWalletRequest::Transfer { spaces: names, to } => Seq::new(
            names@.len(),
            |j: int|
                OpShape::Space {
                    recipient: resolved_script(net, spaces, to, true),
                    space: row_view(spaces, names@[j]),
                },
        ),
        RpcWalletRequest::Open { name, amount } => seq![OpShape::Open { name: name@, amount }],
        RpcWalletRequest::Bid { name, amount } => seq![
            OpShape::Bid { amount, space: row_view(spaces, name) },
        ],
        RpcWalletRequest::Register { name, to } => seq![
            OpShape::Register {
                space: row_view(spaces, name),
                to_script: match to {
                    Some(a) => crate::resolver::space_address_script(str_bytes(a)),
                    None => Some(addrs[cursor].script@),
                },
            },
        ],
        RpcWalletRequest::Execute { context, space_script } => seq![
            OpShape::Execute {
                context: Seq::new(context@.len(), |j: int| row_view(spaces, context@[j])),
                recipients: Seq::new(context@.len(), |j: int| addrs[cursor + j].script@),
                space_script: space_script@,
            },
        ],
    }
}

/// The operation shapes a request list queues, in order: one per intent,
/// except a transfer, which queues one space send per named space. The
/// address cursor moves past what each intent consumes.
pub open spec fn shapes_of(
    net: int,
    spaces: Seq<(Vec<u8>, FullSpaceOut)>,
    addrs: Seq<crate::wallet::SpaceAddress>,
    cursor: int,
    reqs: Seq<RpcWalletRequest>,
) -> Seq<OpShape>
    decreases reqs.len(),
{
    if reqs.len() == 0 {
        Seq::empty()
    } else {
        shapes_of(net, spaces, addrs, cursor, reqs.drop_last()) + request_shapes(
            net,
            spaces,
            addrs,
            cursor + addr_need(reqs.drop_last()),
            reqs.last(),
        )
    }
}

/// Fresh space addresses one intent may consume.
pub open spec fn request_addr_need(req: RpcWalletRequest) -> nat {
    match req {
        RpcWalletRequest::Register { name, to } => if to is None {
            1nat
        } else {
            0nat
        },
        RpcWalletRequest::Execute { context, space_script } => context@.len(),
        _ => 0nat,
    }
}

proof fn lemma_shape_append(
    prevops: Seq<BuilderOp>,
    ops: Seq<BuilderOp>,
    prevshapes: Seq<OpShape>,
    seg: Seq<OpShape>,
)
    requires
        ops.len() == prevops.len() + seg.len(),
        ops.take(prevops.len() as int) == prevops,
        prevshapes.len() == prevops.len(),
        forall|k: int| 0 <= k < prevops.len() ==> op_shape(#[trigger] prevops[k]) == prevshapes[k],
        forall|k: int|
            prevops.len() <= k < ops.len() ==> op_shape(#[trigger] ops[k]) == seg[k
                - prevops.len()],
    ensures
        forall|k: int|
            0 <= k < ops.len() ==> op_shape(#[trigger] ops[k]) == (prevshapes + seg)[k],
{
    assert forall|k: int| 0 <= k < ops.len() implies op_shape(#[trigger] ops[k]) == (prevshapes
        + seg)[k] by {
        if k < prevops.len() {
            assert(ops[k] == ops.take(prevops.len() as int)[k]);
        }
    }
}

/// Picks the batch's fee rate: the caller's if given, else the estimator's,
/// else nothing can be done.
pub fn choose_fee_rate(requested: Option<u64>, estimated: Option<u64>) -> (r: Option<u64>)
    ensures
        match requested {
            Some(f) => r == Some(f),
            None => r == estimated,
        },
{
    match requested {
        Some(f) => Some(f),
        None => estimated,
    }
}

fn do_send_coins(
    network: ChainNet,
    store: &LiveSnapshot,
    amount: u64,
    to: &String,
    ops: &mut Vec<BuilderOp>,
) -> (r: Option<BatchErrorKind>)
    ensures
        r == send_check(net_code(network), store.spaces@, *to),
        r is Some ==> final(ops)@ == old(ops)@,
        r is None ==> final(ops)@.len() == old(ops)@.len() + 1 && final(ops)@.drop_last() == old(
            ops,
        )@ && op_shape(final(ops)@.last()) == (OpShape::Coin {
            amount,
            recipient: resolved_script(net_code(network), store.spaces@, *to, false),
        }),
{
    match resolve(network, store, to.as_str(), false) {
        Err(e) => Some(BatchErrorKind::ResolveFailed(e)),
        Ok(None) => Some(BatchErrorKind::Unresolved),
        Ok(Some(script)) => {
            ops.push(BuilderOp::CoinTransfer { amount, recipient_script: script });
            None
        },
    }
}

#[verifier::loop_isolation(false)]
fn do_transfer(
    network: ChainNet,
    store: &LiveSnapshot,
    wallet: &SpacesWallet,
    names: &Vec<String>,
    to: &String,
    ops: &mut Vec<BuilderOp>,
) -> (r: Option<BatchErrorKind>)
    ensures
        r == transfer_check(net_code(network), store.spaces@, wallet.own_scripts@, names@, *to),
        r is None ==> final(ops)@.len() == old(ops)@.len() + names@.len() && final(ops)@.take(
            old(ops)@.len() as int,
        ) == old(ops)@ && forall|k: int|
            old(ops)@.len() <= k < final(ops)@.len() ==> op_shape(#[trigger] final(ops)@[k]) == (
            OpShape::Space {
                recipient: resolved_script(net_code(network), store.spaces@, *to, true),
                space: row_view(store.spaces@, names@[k - old(ops)@.len()]),
            }),
{
    let m: usize = names.len();
    let mut j: usize = 0;
    while j < m
        invariant
            0 <= j <= m,
            forall|t: int| 0 <= t < j ==> sname_parses(str_bytes(#[trigger] names@[t])),
        decreases m - j,
    {
        if SName::from_str(names[j].as_str()).is_none() {
            proof {
                assert(!sname_parses(str_bytes(names@[j as int])));
            }
            return Some(BatchErrorKind::MalformedName);
        }
        j += 1;
    }
    let recipient = match resolve(network, store, to.as_str(), true) {
        Err(e) => {
            return Some(BatchErrorKind::ResolveFailed(e));
        },
        Ok(None) => {
            return Some(BatchErrorKind::Unresolved);
        },
        Ok(Some(script)) => script,
    };
    proof {
        assert(recipient@ == resolved_script(net_code(network), store.spaces@, *to, true));
    }
    let mut j: usize = 0;
    while j < m
        invariant
            0 <= j <= m,
            ops@.len() == old(ops)@.len() + j,
            ops@.take(old(ops)@.len() as int) == old(ops)@,
            recipient@ == resolved_script(net_code(network), store.spaces@, *to, true),
            forall|k: int|
                old(ops)@.len() <= k < ops@.len() ==> op_shape(#[trigger] ops@[k]) == (
                OpShape::Space {
                    recipient: resolved_script(net_code(network), store.spaces@, *to, true),
                    space: row_view(store.spaces@, names@[k - old(ops)@.len()]),
                }),
            forall|t: int|
                0 <= t < j ==> transfer_name_ok(
                    store.spaces@,
                    wallet.own_scripts@,
                    str_bytes(#[trigger] names@[t]),
                ),
        decreases m - j,
    {
        let name = match SName::from_str(names[j].as_str()) {
            Some(nm) => nm,
            None => {
                proof {
                    assert(false);
                }
                return Some(BatchErrorKind::MalformedName);
            },
        };
        let hash = crate::state::space_hash(&name);
        let full = match store.get_space_info(&hash) {
            None => {
                proof {
                    assert(!transfer_name_ok(
                        store.spaces@,
                        wallet.own_scripts@,
                        str_bytes(names@[j as int]),
                    ));
                }
                return Some(BatchErrorKind::NotOwned);
            },
            Some(f) => f,
        };
        let owned = match &full.spaceout.space {
            Some(space) => space.is_owned(),
            None => false,
        };
        if !owned || !wallet.is_mine(&full.spaceout.script_pubkey) {
            proof {
                assert(!transfer_name_ok(
                    store.spaces@,
                    wallet.own_scripts@,
                    str_bytes(names@[j as int]),
                ));
            }
            return Some(BatchErrorKind::NotOwned);
        }
        proof {
            assert(transfer_name_ok(
                store.spaces@,
                wallet.own_scripts@,
                str_bytes(names@[j as int]),
            ));
        }
        let dup = full.duplicate();
        proof {
            assert(row_view(store.spaces@, names@[j as int]) == Some(fso_view(dup)));
        }
        ops.push(BuilderOp::SpaceTransfer { space: dup, recipient_script: recipient.clone() });
        proof {
            assert(ops@.take(old(ops)@.len() as int) =~= old(ops)@);
        }
        j += 1;
    }
    proof {
        assert(ops@.take(old(ops)@.len() as int) =~= old(ops)@);
    }
    None
}

fn do_open(
    mempool: &Mempool,
    store: &LiveSnapshot,
    force: bool,
    name: &String,
    amount: u64,
    ops: &mut Vec<BuilderOp>,
) -> (r: Option<BatchErrorKind>)
    ensures
        r == open_check(mempool.opens@, store.spaces@, force, *name),
        r is Some ==> final(ops)@ == old(ops)@,
        r is None ==> final(ops)@.len() == old(ops)@.len() + 1 && final(ops)@.drop_last() == old(
            ops,
        )@ && op_shape(final(ops)@.last()) == (OpShape::Open { name: name@, amount }),
{
    let parsed = match SName::from_str(name.as_str()) {
        Some(nm) => nm,
        None => {
            return Some(BatchErrorKind::MalformedName);
        },
    };
    if !force {
        let hash = crate::state::space_hash(&parsed);
        if store.get_space_info(&hash).is_some() {
            return Some(BatchErrorKind::OpenExists);
        }
        if mempool.get_open(name).is_some() {
            return Some(BatchErrorKind::OpenInMempool);
        }
    }
    ops.push(BuilderOp::OpenSpace { name: name.clone(), amount });
    None
}

fn do_bid(store: &LiveSnapshot, name: &String, amount: u64, ops: &mut Vec<BuilderOp>) -> (r: Option<
    BatchErrorKind,
>)
    ensures
        r == bid_check(store.spaces@, *name),
        r is Some ==> final(ops)@ == old(ops)@,
        r is None ==> final(ops)@.len() == old(ops)@.len() + 1 && final(ops)@.drop_last() == old(
            ops,
        )@ && op_shape(final(ops)@.last()) == (OpShape::Bid {
            amount,
            space: row_view(store.spaces@, *name),
        }),
{
    let parsed = match SName::from_str(name.as_str()) {
        Some(nm) => nm,
        None => {
            return Some(BatchErrorKind::MalformedName);
        },
    };
    let hash = crate::state::space_hash(&parsed);
    let full = match store.get_space_info(&hash) {
        None => {
            return Some(BatchErrorKind::BidNonexistent);
        },
        Some(f) => f,
    };
    let dup = full.duplicate();
    ops.push(BuilderOp::BidSpace { space: dup, amount });
    None
}

fn do_register(
    store: &LiveSnapshot,
    wallet: &mut SpacesWallet,
    force: bool,
    name: &String,
    to: &Option<String>,
    ops: &mut Vec<BuilderOp>,
) -> (r: Option<BatchErrorKind>)
    requires
        to is None ==> old(wallet).next_space_addr < old(wallet).space_addrs@.len(),
    ensures
        r == register_check(
            store.spaces@,
            old(wallet).own_scripts@,
            old(wallet).tip.height,
            force,
            *name,
            *to,
        ),
        final(wallet).coins == old(wallet).coins,
        final(wallet).spaces == old(wallet).spaces,
        final(wallet).own_scripts == old(wallet).own_scripts,
        final(wallet).tip == old(wallet).tip,
        final(wallet).checkpoints == old(wallet).checkpoints,
        final(wallet).space_addrs == old(wallet).space_addrs,
        final(wallet).next_space_addr <= old(wallet).next_space_addr + 1,
        final(wallet).next_space_addr >= old(wallet).next_space_addr,
        to matches Some(_) ==> final(wallet).next_space_addr == old(wallet).next_space_addr,
        r is None && to is None ==> final(wallet).next_space_addr == old(wallet).next_space_addr
            + 1,
        r is Some ==> final(ops)@ == old(ops)@,
        r is None ==> final(ops)@.len() == old(ops)@.len() + 1 && final(ops)@.drop_last() == old(
            ops,
        )@ && op_shape(final(ops)@.last()) == (OpShape::Register {
            space: row_view(store.spaces@, *name),
            to_script: match *to {
                Some(a) => crate::resolver::space_address_script(str_bytes(a)),
                None => Some(
                    old(wallet).space_addrs@[old(wallet).next_space_addr as int].script@,
                ),
            },
        }),
{
    let parsed = match SName::from_str(name.as_str()) {
        Some(nm) => nm,
        None => {
            return Some(BatchErrorKind::MalformedName);
        },
    };
    let hash = crate::state::space_hash(&parsed);
    let full = match store.get_space_info(&hash) {
        None => {
            return Some(BatchErrorKind::RegisterNonexistent);
        },
        Some(f) => f,
    };
    if !wallet.is_mine(&full.spaceout.script_pubkey) {
        return Some(BatchErrorKind::RegisterNotOwned);
    }
    if !force {
        let claim = match &full.spaceout.space {
            None => {
                return Some(BatchErrorKind::RegisterPreauction);
            },
            Some(space) => match space.claim_height {
                None => {
                    return Some(BatchErrorKind::RegisterPreauction);
                },
                Some(h) => h,
            },
        };
        if claim > wallet.tip.height {
            return Some(BatchErrorKind::RegisterClaimHeight(claim));
        }
    }
    let dup = full.duplicate();
    let to_script: Vec<u8> = match to {
        Some(addr) => match crate::resolver::parse_space_address(addr.as_str()) {
            Some(script) => script,
            None => {
                return Some(BatchErrorKind::RegisterBadDestination);
            },
        },
        None => {
            let a = wallet.next_unused_space_address();
            a.script
        },
    };
    ops.push(BuilderOp::RegisterSpace { space: dup, to_script });
    None
}

#[verifier::loop_isolation(false)]
fn do_execute(
    store: &LiveSnapshot,
    wallet: &mut SpacesWallet,
    context: &Vec<String>,
    space_script: &Vec<u8>,
    ops: &mut Vec<BuilderOp>,
) -> (r: Option<BatchErrorKind>)
    requires
        old(wallet).next_space_addr + context@.len() <= old(wallet).space_addrs@.len(),
    ensures
        r == context_check(store.spaces@, old(wallet).own_scripts@, context@),
        final(wallet).coins == old(wallet).coins,
        final(wallet).spaces == old(wallet).spaces,
        final(wallet).own_scripts == old(wallet).own_scripts,
        final(wallet).tip == old(wallet).tip,
        final(wallet).checkpoints == old(wallet).checkpoints,
        final(wallet).space_addrs == old(wallet).space_addrs,
        final(wallet).next_space_addr <= old(wallet).next_space_addr + context@.len(),
        final(wallet).next_space_addr >= old(wallet).next_space_addr,
        r is None ==> final(wallet).next_space_addr == old(wallet).next_space_addr
            + context@.len(),
        r is Some ==> final(ops)@ == old(ops)@,
        r is None ==> final(ops)@.len() == old(ops)@.len() + 1 && final(ops)@.drop_last() == old(
            ops,
        )@ && op_shape(final(ops)@.last()) == (OpShape::Execute {
            context: Seq::new(context@.len(), |j: int| row_view(store.spaces@, context@[j])),
            recipients: Seq::new(
                context@.len(),
                |j: int|
                    old(wallet).space_addrs@[old(wallet).next_space_addr + j].script@,
            ),
            space_script: space_script@,
        }),
{
    let m: usize = context.len();
    let mut picked: Vec<FullSpaceOut> = Vec::new();
    let mut recipients: Vec<Vec<u8>> = Vec::new();
    proof {
        assert(context@.skip(0) =~= context@);
    }
    let mut j: usize = 0;
    while j < m
        invariant
            0 <= j <= m,
            context_check(store.spaces@, wallet.own_scripts@, context@) == context_check(
                store.spaces@,
                wallet.own_scripts@,
                context@.skip(j as int),
            ),
            wallet.next_space_addr == old(wallet).next_space_addr + j,
            picked@.len() == j,
            recipients@.len() == j,
            forall|t: int|
                0 <= t < j ==> Some(fso_view(#[trigger] picked@[t])) == row_view(
                    store.spaces@,
                    context@[t],
                ),
            forall|t: int|
                0 <= t < j ==> (#[trigger] recipients@[t])@ == old(wallet).space_addrs@[old(
                    wallet,
                ).next_space_addr + t].script@,
            wallet.coins == old(wallet).coins,
            wallet.spaces == old(wallet).spaces,
            wallet.own_scripts == old(wallet).own_scripts,
            wallet.tip == old(wallet).tip,
            wallet.checkpoints == old(wallet).checkpoints,
            wallet.space_addrs == old(wallet).space_addrs,
            ops@ == old(ops)@,
        decreases m - j,
    {
        proof {
            assert(context@.skip(j as int)[0] == context@[j as int]);
            assert(context@.skip(j as int).drop_first() =~= context@.skip(j as int + 1));
        }
        let name = match SName::from_str(context[j].as_str()) {
            Some(nm) => nm,
            None => {
                return Some(BatchErrorKind::MalformedName);
            },
        };
        let hash = crate::state::space_hash(&name);
        let full = match store.get_space_info(&hash) {
            None => {
                return Some(BatchErrorKind::ExecuteNonexistent);
            },
            Some(f) => f,
        };
        if !wallet.is_mine(&full.spaceout.script_pubkey) {
            return Some(BatchErrorKind::ExecuteNotOwned);
        }
        let dup = full.duplicate();
        proof {
            assert(row_view(store.spaces@, context@[j as int]) == Some(fso_view(dup)));
        }
        let a = wallet.next_unused_space_address();
        picked.push(dup);
        recipients.push(a.script);
        j += 1;
    }
    proof {
        assert(context@.skip(m as int) =~= Seq::<String>::empty());
    }
    ops.push(
        BuilderOp::ExecuteSpaces {
            context: picked,
            recipients,
            space_script: space_script.clone(),
        },
    );
    proof {
        let got = op_shape(ops@.last());
        let want = OpShape::Execute {
            context: Seq::new(context@.len(), |j: int| row_view(store.spaces@, context@[j])),
            recipients: Seq::new(
                context@.len(),
                |j: int| old(wallet).space_addrs@[old(wallet).next_space_addr + j].script@,
            ),
            space_script: space_script@,
        };
        assert(got matches OpShape::Execute { context: c2, recipients: r2, space_script: ss2 }
            && want matches OpShape::Execute { context: c1, recipients: r1, space_script: ss1 }
            && c1 =~= c2 && r1 =~= r2 && ss1 == ss2);
        assert(got == want);
    }
    None
}

/// Serves one intent: validates it and queues its operations, drawing
/// fresh space addresses as needed.
#[verifier::loop_isolation(false)]
fn apply_request(
    network: ChainNet,
    mempool: &Mempool,
    store: &LiveSnapshot,
    wallet: &mut SpacesWallet,
    force: bool,
    req: &RpcWalletRequest,
    ops: &mut Vec<BuilderOp>,
) -> (r: Option<BatchErrorKind>)
    requires
        old(wallet).next_space_addr + request_addr_need(*req) <= old(wallet).space_addrs@.len(),
    ensures
        r == request_check(
            net_code(network),
            mempool.opens@,
            store.spaces@,
            old(wallet).own_scripts@,
            old(wallet).tip.height,
            force,
            *req,
        ),
        final(wallet).coins == old(wallet).coins,
        final(wallet).spaces == old(wallet).spaces,
        final(wallet).own_scripts == old(wallet).own_scripts,
        final(wallet).tip == old(wallet).tip,
        final(wallet).checkpoints == old(wallet).checkpoints,
        final(wallet).space_addrs == old(wallet).space_addrs,
        final(wallet).next_space_addr <= old(wallet).next_space_addr + request_addr_need(*req),
        final(wallet).next_space_addr >= old(wallet).next_space_addr,
        r is None ==> final(wallet).next_space_addr == old(wallet).next_space_addr
            + request_addr_need(*req),
        r is None ==> ({
            let seg = request_shapes(
                net_code(network),
                store.spaces@,
                old(wallet).space_addrs@,
                old(wallet).next_space_addr as int,
                *req,
            );
            final(ops)@.len() == old(ops)@.len() + seg.len() && final(ops)@.take(
                old(ops)@.len() as int,
            ) == old(ops)@ && forall|k: int|
                old(ops)@.len() <= k < final(ops)@.len() ==> op_shape(#[trigger] final(ops)@[k])
                    == seg[k - old(ops)@.len()]
        }),
{
    match req {
        RpcWalletRequest::SendCoins { amount, to } => {
            let r = do_send_coins(network, store, *amount, to, ops);
            proof {
                if r is None {
                    assert(ops@.take(old(ops)@.len() as int) =~= ops@.drop_last());
                }
            }
            r
        },
        RpcWalletRequest::Transfer { spaces: names, to } => do_transfer(
            network,
            store,
            wallet,
            names,
            to,
            ops,
        ),
        RpcWalletRequest::Open { name, amount } => {
            let r = do_open(mempool, store, force, name, *amount, ops);
            proof {
                if r is None {
                    assert(ops@.take(old(ops)@.len() as int) =~= ops@.drop_last());
                }
            }
            r
        },
        RpcWalletRequest::Bid { name, amount } => {
            let r = do_bid(store, name, *amount, ops);
            proof {
                if r is None {
                    assert(ops@.take(old(ops)@.len() as int) =~= ops@.drop_last());
                }
            }
            r
        },
        RpcWalletRequest::Register { name, to } => {
            let r = do_register(store, wallet, force, name, to, ops);
            proof {
                if r is None {
                    assert(ops@.take(old(ops)@.len() as int) =~= ops@.drop_last());
                }
            }
            r
        },
        RpcWalletRequest::Execute { context, space_script } => {
            let r = do_execute(store, wallet, context, space_script, ops);
            proof {
                if r is None {
                    assert(ops@.take(old(ops)@.len() as int) =~= ops@.drop_last());
                    let seg = request_shapes(
                        net_code(network),
                        store.spaces@,
                        old(wallet).space_addrs@,
                        old(wallet).next_space_addr as int,
                        *req,
                    );
                    let got = op_shape(ops@.last());
                    assert(got matches OpShape::Execute {
                        context: c2,
                        recipients: r2,
                        space_script: ss2,
                    } && seg[0] matches OpShape::Execute {
                        context: c1,
                        recipients: r1,
                        space_script: ss1,
                    } && c1 =~= c2 && r1 =~= r2 && ss1 == ss2);
                    assert(got == seg[0]);
                }
            }
            r
        },
    }
}

/// Validates every intent in order against the snapshot, the mempool and
/// the wallet, and queues the operations the transaction builder will
/// realize — one per intent, one per named space for transfers, in request
/// order. Fails on the first bad intent, naming it and the reason. Space
/// addresses for registers without a destination and for execute contexts
/// are drawn from the wallet's pre-derived queue.
#[verifier::loop_isolation(false)]
#[verifier::rlimit(100)]
pub fn prepare_batch(
    network: ChainNet,
    mempool: &Mempool,
    store: &LiveSnapshot,
    wallet: &mut SpacesWallet,
    tx: &RpcWalletTxBuilder,
) -> (r: Result<Vec<BuilderOp>, BatchIntentError>)
    requires
        old(wallet).next_space_addr + addr_need(tx.requests@) <= old(wallet).space_addrs@.len(),
    ensures
        final(wallet).coins == old(wallet).coins,
        final(wallet).spaces == old(wallet).spaces,
        final(wallet).own_scripts == old(wallet).own_scripts,
        final(wallet).tip == old(wallet).tip,
        final(wallet).checkpoints == old(wallet).checkpoints,
        final(wallet).space_addrs == old(wallet).space_addrs,
        ({
            let fe = first_request_error(
                net_code(network),
                mempool.opens@,
                store.spaces@,
                old(wallet).own_scripts@,
                old(wallet).tip.height,
                tx.force,
                tx.requests@,
                0,
            );
            match fe {
                Some(ik) => r == Err::<Vec<BuilderOp>, BatchIntentError>(
                    BatchIntentError { index: ik.0 as usize, kind: ik.1 },
                ),
                None => r matches Ok(ops) && ({
                    let all = shapes_of(
                        net_code(network),
                        store.spaces@,
                        old(wallet).space_addrs@,
                        old(wallet).next_space_addr as int,
                        tx.requests@,
                    );
                    ops@.len() == all.len() && forall|k: int|
                        0 <= k < ops@.len() ==> op_shape(#[trigger] ops@[k]) == all[k]
                }),
            }
        }),
{
    let ghost net = net_code(network);
    let ghost mem = mempool.opens@;
    let ghost sp = store.spaces@;
    let ghost own = old(wallet).own_scripts@;
    let ghost tip = old(wallet).tip.height;
    let ghost reqs = tx.requests@;
    let ghost addrs0 = old(wallet).space_addrs@;
    let ghost c0 = old(wallet).next_space_addr as int;
    let mut ops: Vec<BuilderOp> = Vec::new();
    proof {
        assert(reqs.take(0) =~= Seq::<RpcWalletRequest>::empty());
    }
    let n: usize = tx.requests.len();
    let mut i: usize = 0;
    while i < n
        invariant
            n == reqs.len(),
            0 <= i <= n,
            first_request_error(net, mem, sp, own, tip, tx.force, reqs, 0)
                == first_request_error(net, mem, sp, own, tip, tx.force, reqs, i as int),
            ops@.len() == shapes_of(net, sp, addrs0, c0, reqs.take(i as int)).len(),
            forall|k: int|
                0 <= k < ops@.len() ==> op_shape(#[trigger] ops@[k]) == shapes_of(
                    net,
                    sp,
                    addrs0,
                    c0,
                    reqs.take(i as int),
                )[k],
            wallet.next_space_addr == old(wallet).next_space_addr + addr_need(
                reqs.take(i as int),
            ),
            wallet.coins == old(wallet).coins,
            wallet.spaces == old(wallet).spaces,
            wallet.own_scripts == old(wallet).own_scripts,
            wallet.tip == old(wallet).tip,
            wallet.checkpoints == old(wallet).checkpoints,
            wallet.space_addrs == old(wallet).space_addrs,
        decreases n - i,
    {
        let ghost done = reqs.take(i as int);
        let ghost prevops = ops@;
        proof {
            lemma_addr_need_take(reqs, i as int + 1);
            assert(reqs.take(i as int + 1).drop_last() =~= done);
            assert(reqs.take(i as int + 1).last() == reqs[i as int]);
        }
        let step = apply_request(
            network,
            mempool,
            store,
            wallet,
            tx.force,
            &tx.requests[i],
            &mut ops,
        );
        if let Some(kind) = step {
            return Err(BatchIntentError { index: i, kind });
        }
        proof {
            lemma_shape_append(
                prevops,
                ops@,
                shapes_of(net, sp, addrs0, c0, done),
                request_shapes(net, sp, addrs0, c0 + addr_need(done), reqs[i as int]),
            );
            assert(shapes_of(net, sp, addrs0, c0, reqs.take(i as int + 1)) == shapes_of(
                net,
                sp,
                addrs0,
                c0,
                done,
            ) + request_shapes(net, sp, addrs0, c0 + addr_need(done), reqs[i as int]));
        }
        i += 1;
    }
    proof {
        assert(reqs.take(n as int) =~= reqs);
    }
    Ok(ops)
}

/// A diagnostic hint attached to a failing bid broadcast.
#[derive(Debug, Clone, Copy, PartialEq, Eq, Structural)]
pub enum TxHint {
    /// A competing bid sits in the mempool; a replacement needs a fee rate
    /// above this many sat/vB.
    CompetingBid { min_feerate: u64 },
    /// Bids in the mempool cannot be replaced without confirmed auction
    /// outputs.
    UnconfirmedAuctionOutputs,
}

/// The text of a hint.
pub open spec fn hint_chars(h: TxHint) -> Seq<char> {
    match h {
        TxHint::CompetingBid { min_feerate } => (
        "A competing bid is in the mempool; replace with a fee rate > ")@
            + crate::encoding::dec_chars(min_feerate as nat) + (" sat/vB.")@,
        TxHint::UnconfirmedAuctionOutputs => (
        "Without confirmed auction outputs, bids in the mempool cannot be replaced.")@,
    }
}

impl TxHint {
    /// Renders the hint for a diagnostic map.
    pub fn render(&self) -> (r: String)
        ensures
            r@ == hint_chars(*self),
    {
        match self {
            TxHint::CompetingBid { min_feerate } => {
                let mut s = String::new();
                s.append("A competing bid is in the mempool; replace with a fee rate > ");
                let num = crate::encoding::u64_to_string(*min_feerate);
                s.append(num.as_str());
                s.append(" sat/vB.");
                proof {
                    assert(s@ =~= hint_chars(*self));
                }
                s
            },
            TxHint::UnconfirmedAuctionOutputs => {
                let mut s = String::new();
                s.append(
                    "Without confirmed auction outputs, bids in the mempool cannot be replaced.",
                );
                proof {
                    assert(s@ =~= hint_chars(*self));
                }
                s
            },
        }
    }
}

/// The diagnostic attached to the transaction whose broadcast failed.
#[derive(Debug)]
pub struct TxError {
    pub rpc_code: Option<i32>,
    pub message: String,
    pub hint: Option<TxHint>,
}

/// One transaction's record in a batch response.
#[derive(Debug)]
pub struct TxResponse {
    pub txid: String,
    pub tags: Vec<TransactionTag>,
    pub error: Option<TxError>,
}

/// A batch response: one record per attempted transaction, and — when any
/// broadcast failed — the raw hex of every attempted transaction, so a
/// client can retry out of band.
#[derive(Debug)]
pub struct WalletResponse {
    pub sent: Vec<TxResponse>,
    pub raw: Option<Vec<String>>,
}

/// A transaction the wallet built for the plan: its id in display hex, its
/// tags, and its raw encoding in hex.
#[derive(Debug)]
pub struct PlannedTx {
    pub txid: String,
    pub tags: Vec<TransactionTag>,
    pub raw_hex: String,
}

pub open spec fn has_tag(tags: Seq<TransactionTag>, t: TransactionTag) -> bool {
    exists|i: int| 0 <= i < tags.len() && tags[i] == t
}

fn tags_contain(tags: &Vec<TransactionTag>, t: TransactionTag) -> (r: bool)
    ensures
        r == has_tag(tags@, t),
{
    let n: usize = tags.len();
    let mut i: usize = 0;
    while i < n
        invariant
            n == tags@.len(),
            0 <= i <= n,
            forall|j: int| 0 <= j < i ==> tags@[j] != t,
        decreases n - i,
    {
        if tags[i] == t {
            return true;
        }
        i += 1;
    }
    false
}

fn copy_tags(tags: &Vec<TransactionTag>) -> (r: Vec<TransactionTag>)
    ensures
        r@ == tags@,
{
    let mut out: Vec<TransactionTag> = Vec::new();
    let n: usize = tags.len();
    let mut i: usize = 0;
    while i < n
        invariant
            n == tags@.len(),
            0 <= i <= n,
            out@ == tags@.take(i as int),
        decreases n - i,
    {
        out.push(tags[i]);
        proof {
            assert(out@ =~= tags@.take(i as int + 1));
        }
        i += 1;
    }
    proof {
        assert(tags@.take(n as int) =~= tags@);
    }
    out
}

/// Index of the first failed broadcast among the first `n` outcomes, or
/// `n`.
pub open spec fn first_broadcast_err(
    outcomes: Seq<Result<u64, BitcoinRpcError>>,
    n: int,
    i: int,
) -> int
    decreases n - i,
{
    if i < 0 || i >= n {
        n
    } else if outcomes[i] is Err {
        i
    } else {
        first_broadcast_err(outcomes, n, i + 1)
    }
}

/// The code a failing broadcast reports: the RPC error's code, when the
/// node answered with one.
pub open spec fn error_code(e: BitcoinRpcError) -> Option<i32> {
    match e {
        BitcoinRpcError::Rpc(j) => Some(j.code),
        _ => None,
    }
}

/// The message a failing broadcast reports.
pub open spec fn error_message(e: BitcoinRpcError) -> Seq<char> {
    match e {
        BitcoinRpcError::Rpc(j) => j.message@,
        BitcoinRpcError::Transport(t) => ("transport error")@,
        BitcoinRpcError::Other(s) => s@,
    }
}

/// The hint attached to a failing bid: the competing fee rate when the
/// message names one, else the unconfirmed-auction-outputs warning when the
/// message says a replacement would add unconfirmed inputs.
pub open spec fn error_hint(e: BitcoinRpcError, is_bid: bool) -> Option<TxHint> {
    match e {
        BitcoinRpcError::Rpc(j) => {
            if !is_bid {
                None
            } else {
                match fee_rate_spec(str_bytes(j.message)) {
                    Some(fr) => Some(TxHint::CompetingBid { min_feerate: fr }),
                    None => {
                        if contains_seq(
                            str_bytes(j.message),
                            ("replacement-adds-unconfirmed").spec_bytes(),
                        ) {
                            Some(TxHint::UnconfirmedAuctionOutputs)
                        } else {
                            None
                        }
                    },
                }
            }
        },
        _ => None,
    }
}

/// Records the broadcasts of a batch, one outcome per built transaction,
/// in order, stopping at the first failure: every record before the failing
/// one is clean, the failing record carries the diagnostic (with a
/// competing-bid hint for bids), no record follows it, and the raw hex of
/// the attempted transactions is echoed exactly when something failed.
#[verifier::loop_isolation(false)]
pub fn broadcast_batch(
    txs: &Vec<PlannedTx>,
    outcomes: &mut Vec<Result<u64, BitcoinRpcError>>,
) -> (r: WalletResponse)
    requires
        old(outcomes)@.len() == txs@.len(),
    ensures
        ({
            let n = txs@.len() as int;
            let fe = first_broadcast_err(old(outcomes)@, n, 0);
            &&& (fe == n ==> r.sent@.len() == n && r.raw is None)
            &&& (fe < n ==> r.sent@.len() == fe + 1 && (r.raw matches Some(raws) && raws@.len()
                == fe + 1 && forall|j: int|
                0 <= j <= fe ==> (#[trigger] raws@[j])@ == txs@[j].raw_hex@))
            &&& forall|j: int|
                0 <= j < r.sent@.len() ==> (#[trigger] r.sent@[j]).txid@ == txs@[j].txid@
                    && r.sent@[j].tags@ == txs@[j].tags@
            &&& forall|j: int| 0 <= j < r.sent@.len() && j < fe ==> (#[trigger] r.sent@[j]).error is None
            &&& (fe < n ==> (r.sent@[fe].error matches Some(te) && old(outcomes)@[fe] matches Err(e)
                && te.rpc_code == error_code(e) && te.message@ == error_message(e) && te.hint
                == error_hint(e, has_tag(txs@[fe].tags@, TransactionTag::Bid))))
        }),
{
    let ghost orig = old(outcomes)@;
    let ghost n = txs@.len() as int;
    let mut sent: Vec<TxResponse> = Vec::new();
    let mut raws: Vec<String> = Vec::new();
    let mut i: usize = 0;
    while i < txs.len()
        invariant
            outcomes@ == orig.skip(i as int),
            0 <= i <= n,
            first_broadcast_err(orig, n, 0) == first_broadcast_err(orig, n, i as int),
            sent@.len() == i,
            raws@.len() == i,
            forall|j: int|
                0 <= j < i ==> (#[trigger] sent@[j]).txid@ == txs@[j].txid@ && sent@[j].tags@
                    == txs@[j].tags@ && sent@[j].error is None,
            forall|j: int| 0 <= j < i ==> (#[trigger] raws@[j])@ == txs@[j].raw_hex@,
        decreases n - i,
    {
        let cur = outcomes.remove(0);
        proof {
            assert(outcomes@ =~= orig.skip(i as int + 1));
            assert(cur == orig[i as int]);
        }
        let tx = &txs[i];
        raws.push(tx.raw_hex.clone());
        match cur {
            Ok(_confirmation) => {
                sent.push(
                    TxResponse { txid: tx.txid.clone(), tags: copy_tags(&tx.tags), error: None },
                );
            },
            Err(e) => {
                let is_bid = tags_contain(&tx.tags, TransactionTag::Bid);
                let err = match e {
                    BitcoinRpcError::Rpc(j) => {
                        let hint: Option<TxHint> = if is_bid {
                            match crate::fees::fee_rate_from_message(j.message.as_str()) {
                                Some(fr) => Some(TxHint::CompetingBid { min_feerate: fr }),
                                None => {
                                    if crate::fees::message_contains(
                                        j.message.as_str(),
                                        "replacement-adds-unconfirmed",
                                    ) {
                                        Some(TxHint::UnconfirmedAuctionOutputs)
                                    } else {
                                        None
                                    }
                                },
                            }
                        } else {
                            None
                        };
                        TxError { rpc_code: Some(j.code), message: j.message, hint }
                    },
                    BitcoinRpcError::Transport(_t) => {
                        let mut m = String::new();
                        m.append("transport error");
                        proof {
                            assert(m@ =~= ("transport error")@);
                        }
                        TxError { rpc_code: None, message: m, hint: None }
                    },
                    BitcoinRpcError::Other(s) => TxError { rpc_code: None, message: s, hint: None },
                };
                sent.push(
                    TxResponse {
                        txid: tx.txid.clone(),
                        tags: copy_tags(&tx.tags),
                        error: Some(err),
                    },
                );
                return WalletResponse { sent, raw: Some(raws) };
            },
        }
        i += 1;
    }
    WalletResponse { sent, raw: None }
}

/// The record a fee bump produces: the bumped transaction's id under the
/// fee-bump tag, with no error.
pub fn fee_bump_response(txid: String) -> (r: Vec<TxResponse>)
    ensures
        r@.len() == 1,
        r@[0].txid@ == txid@,
        r@[0].tags@ == seq![TransactionTag::FeeBump],
        r@[0].error is None,
{
    let mut tags: Vec<TransactionTag> = Vec::new();
    tags.push(TransactionTag::FeeBump);
    proof {
        assert(tags@ =~= seq![TransactionTag::FeeBump]);
    }
    let mut out: Vec<TxResponse> = Vec::new();
    out.push(TxResponse { txid, tags, error: None });
    out
}

} // verus!
