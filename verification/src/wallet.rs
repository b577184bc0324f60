//! The wallet as the sync actor sees it: two keychains of plain outputs
//! ("coins" and "spaces"), the scripts the wallet controls, its local chain
//! tip and checkpoints, and pre-derived receive addresses. Balance
//! accounting and the coin-value/locked classification of spaces-keychain
//! outputs live here.
//!
//! The descriptor wallet itself — key derivation, signing, persistence —
//! lives outside the crate and keeps this model filled in.

use vstd::prelude::*;

use crate::chain::RpcBlockId;
use crate::state::{find_spaceout, FullSpaceOut, LiveSnapshot, OutPoint, SpaceOut};

verus! {

/// How a wallet output stands towards confirmation. `Immature` is a
/// confirmed coinbase output that cannot be spent yet; the two pending
/// kinds follow whether the funding transaction is the wallet's own.
#[derive(Debug, Clone, Copy, PartialEq, Eq, Structural)]
pub enum OutputStatus {
    Confirmed,
    Immature,
    TrustedPending,
    UntrustedPending,
}

/// One keychain output: where it sits, its value, whether it is spent,
/// whether it belongs to the external (receive) keychain, and its
/// confirmation status.
#[derive(Debug, Clone, Copy, PartialEq, Eq, Structural)]
pub struct LocalOutput {
    pub outpoint: OutPoint,
    pub value: u64,
    pub is_spent: bool,
    pub external: bool,
    pub status: OutputStatus,
}

/// Confirmed in the chain, matured or not.
pub open spec fn is_confirmed(o: LocalOutput) -> bool {
    o.status == OutputStatus::Confirmed || o.status == OutputStatus::Immature
}

/// Sum of the values of unspent outputs in `s` with status `st`.
pub open spec fn sum_status(s: Seq<LocalOutput>, st: OutputStatus) -> nat
    decreases s.len(),
{
    if s.len() == 0 {
        0
    } else {
        sum_status(s.drop_last(), st) + (if !s.last().is_spent && s.last().status == st {
            s.last().value as nat
        } else {
            0nat
        })
    }
}

/// Sum of the values of all unspent outputs in `s`.
pub open spec fn unspent_sum(s: Seq<LocalOutput>) -> nat
    decreases s.len(),
{
    if s.len() == 0 {
        0
    } else {
        unspent_sum(s.drop_last()) + (if !s.last().is_spent {
            s.last().value as nat
        } else {
            0nat
        })
    }
}

/// The four status sums partition the unspent sum.
pub proof fn lemma_sum_parts(s: Seq<LocalOutput>)
    ensures
        unspent_sum(s) == sum_status(s, OutputStatus::Confirmed) + sum_status(
            s,
            OutputStatus::Immature,
        ) + sum_status(s, OutputStatus::TrustedPending) + sum_status(
            s,
            OutputStatus::UntrustedPending,
        ),
    decreases s.len(),
{
    if s.len() > 0 {
        lemma_sum_parts(s.drop_last());
    }
}

proof fn lemma_unspent_sum_take(s: Seq<LocalOutput>, i: int)
    requires
        0 <= i <= s.len(),
    ensures
        unspent_sum(s.take(i)) <= unspent_sum(s),
    decreases s.len() - i,
{
    if i < s.len() {
        lemma_unspent_sum_take(s, i + 1);
        assert(s.take(i + 1).drop_last() =~= s.take(i));
        assert(unspent_sum(s.take(i + 1)) >= unspent_sum(s.take(i)));
    } else {
        assert(s.take(i) =~= s);
    }
}

/// A keychain balance, split as the wallet reports it.
#[derive(Debug, Clone, Copy, PartialEq, Eq, Structural)]
pub struct Balance {
    pub immature: u64,
    pub trusted_pending: u64,
    pub untrusted_pending: u64,
    pub confirmed: u64,
}

/// Sums a keychain's unspent outputs into the four balance buckets.
pub fn keychain_balance(outputs: &Vec<LocalOutput>) -> (r: Balance)
    requires
        unspent_sum(outputs@) <= u64::MAX,
    ensures
        r.immature as nat == sum_status(outputs@, OutputStatus::Immature),
        r.trusted_pending as nat == sum_status(outputs@, OutputStatus::TrustedPending),
        r.untrusted_pending as nat == sum_status(outputs@, OutputStatus::UntrustedPending),
        r.confirmed as nat == sum_status(outputs@, OutputStatus::Confirmed),
{
    let mut immature: u64 = 0;
    let mut trusted: u64 = 0;
    let mut untrusted: u64 = 0;
    let mut confirmed: u64 = 0;
    let mut i: usize = 0;
    while i < outputs.len()
        invariant
            unspent_sum(outputs@) <= u64::MAX,
            0 <= i <= outputs@.len(),
            immature as nat == sum_status(outputs@.take(i as int), OutputStatus::Immature),
            trusted as nat == sum_status(outputs@.take(i as int), OutputStatus::TrustedPending),
            untrusted as nat == sum_status(
                outputs@.take(i as int),
                OutputStatus::UntrustedPending,
            ),
            confirmed as nat == sum_status(outputs@.take(i as int), OutputStatus::Confirmed),
            immature + trusted + untrusted + confirmed <= unspent_sum(outputs@),
        decreases outputs@.len() - i,
    {
        let o = outputs[i];
        proof {
            assert(outputs@.take(i as int + 1).drop_last() =~= outputs@.take(i as int));
            assert(outputs@.take(i as int + 1).last() == outputs@[i as int]);
            lemma_sum_parts(outputs@.take(i as int));
            lemma_sum_parts(outputs@.take(i as int + 1));
            lemma_unspent_sum_take(outputs@, i as int + 1);
        }
        if !o.is_spent {
            match o.status {
                OutputStatus::Immature => {
                    immature = immature + o.value;
                },
                OutputStatus::TrustedPending => {
                    trusted = trusted + o.value;
                },
                OutputStatus::UntrustedPending => {
                    untrusted = untrusted + o.value;
                },
                OutputStatus::Confirmed => {
                    confirmed = confirmed + o.value;
                },
            }
        }
        i += 1;
    }
    proof {
        assert(outputs@.take(outputs@.len() as int) =~= outputs@);
    }
    Balance { immature, trusted_pending: trusted, untrusted_pending: untrusted, confirmed }
}

/// A double utxo the wallet keeps aside for auctions: the output that
/// funds a bid and the auctioned output riding with it.
#[derive(Debug, Clone, Copy, PartialEq, Eq, Structural)]
pub struct DoubleUtxo {
    pub spend: OutPoint,
    pub auction: OutPoint,
    pub confirmed: bool,
}

/// A pre-derived space address: its text and the script it binds to.
#[derive(Debug)]
pub struct SpaceAddress {
    pub text: String,
    pub script: Vec<u8>,
}

/// The wallet model: the two keychains' outputs, the scripts the wallet
/// controls, the local chain position, and pre-derived addresses handed out
/// in order.
#[derive(Debug)]
pub struct SpacesWallet {
    pub coins: Vec<LocalOutput>,
    pub spaces: Vec<LocalOutput>,
    pub own_scripts: Vec<Vec<u8>>,
    pub tip: RpcBlockId,
    pub checkpoints: Vec<RpcBlockId>,
    pub coin_addrs: Vec<String>,
    pub next_coin_addr: usize,
    pub space_addrs: Vec<SpaceAddress>,
    pub next_space_addr: usize,
    pub auction_outputs: Vec<DoubleUtxo>,
}

/// Whether `script` is one of the wallet's own.
pub open spec fn owns_script(scripts: Seq<Vec<u8>>, script: Seq<u8>) -> bool {
    exists|i: int| 0 <= i < scripts.len() && scripts[i]@ == script
}

impl SpacesWallet {
    /// Whether the wallet controls a script.
    pub fn is_mine(&self, script: &Vec<u8>) -> (r: bool)
        ensures
            r == owns_script(self.own_scripts@, script@),
    {
        let n: usize = self.own_scripts.len();
        let mut i: usize = 0;
        while i < n
            invariant
                n == self.own_scripts@.len(),
                0 <= i <= n,
                forall|j: int| 0 <= j < i ==> self.own_scripts@[j]@ != script@,
            decreases n - i,
        {
            if crate::state::bytes_eq(&self.own_scripts[i], script) {
                return true;
            }
            i += 1;
        }
        false
    }

    /// Hands out the next pre-derived space address.
    pub fn next_unused_space_address(&mut self) -> (r: SpaceAddress)
        requires
            old(self).next_space_addr < old(self).space_addrs@.len(),
        ensures
            r.text@ == old(self).space_addrs@[old(self).next_space_addr as int].text@,
            r.script@ == old(self).space_addrs@[old(self).next_space_addr as int].script@,
            final(self).next_space_addr == old(self).next_space_addr + 1,
            final(self).space_addrs == old(self).space_addrs,
            final(self).coins == old(self).coins,
            final(self).spaces == old(self).spaces,
            final(self).own_scripts == old(self).own_scripts,
            final(self).tip == old(self).tip,
            final(self).checkpoints == old(self).checkpoints,
            final(self).coin_addrs == old(self).coin_addrs,
            final(self).next_coin_addr == old(self).next_coin_addr,
            final(self).auction_outputs == old(self).auction_outputs,
    {
        let total: usize = self.space_addrs.len();
        proof {
            assert(self.next_space_addr < total);
        }
        let a = &self.space_addrs[self.next_space_addr];
        let out = SpaceAddress { text: a.text.clone(), script: a.script.clone() };
        self.next_space_addr = self.next_space_addr + 1;
        out
    }

    /// Hands out the next pre-derived coin address.
    pub fn next_unused_coin_address(&mut self) -> (r: String)
        requires
            old(self).next_coin_addr < old(self).coin_addrs@.len(),
        ensures
            r@ == old(self).coin_addrs@[old(self).next_coin_addr as int]@,
            final(self).next_coin_addr == old(self).next_coin_addr + 1,
            final(self).coin_addrs == old(self).coin_addrs,
            final(self).coins == old(self).coins,
            final(self).spaces == old(self).spaces,
            final(self).own_scripts == old(self).own_scripts,
            final(self).tip == old(self).tip,
            final(self).checkpoints == old(self).checkpoints,
            final(self).space_addrs == old(self).space_addrs,
            final(self).next_space_addr == old(self).next_space_addr,
            final(self).auction_outputs == old(self).auction_outputs,
    {
        let total: usize = self.coin_addrs.len();
        proof {
            assert(self.next_coin_addr < total);
        }
        let a = self.coin_addrs[self.next_coin_addr].clone();
        self.next_coin_addr = self.next_coin_addr + 1;
        a
    }
}

/// A spaces-keychain output the partition looks at: unspent and on the
/// external keychain.
pub open spec fn partition_candidate(o: LocalOutput) -> bool {
    o.external && !o.is_spent
}

/// The coin-value outputs: candidates the snapshot holds no space output
/// for, in keychain order.
pub open spec fn coinout_filter(
    spaces: Seq<LocalOutput>,
    rows: Seq<(OutPoint, SpaceOut)>,
) -> Seq<LocalOutput>
    decreases spaces.len(),
{
    if spaces.len() == 0 {
        Seq::empty()
    } else {
        let rest = coinout_filter(spaces.drop_last(), rows);
        if partition_candidate(spaces.last()) && find_spaceout(
            rows,
            spaces.last().outpoint,
        ) is None {
            rest.push(spaces.last())
        } else {
            rest
        }
    }
}

/// The space-carrying outputs: candidates the snapshot holds a space
/// output for, in keychain order.
pub open spec fn space_candidates(
    spaces: Seq<LocalOutput>,
    rows: Seq<(OutPoint, SpaceOut)>,
) -> Seq<LocalOutput>
    decreases spaces.len(),
{
    if spaces.len() == 0 {
        Seq::empty()
    } else {
        let rest = space_candidates(spaces.drop_last(), rows);
        if partition_candidate(spaces.last()) && find_spaceout(
            rows,
            spaces.last().outpoint,
        ) is Some {
            rest.push(spaces.last())
        } else {
            rest
        }
    }
}

/// The space-carrying candidates whose snapshot row binds a space (not a
/// bare output), in keychain order: what `ListSpaces` lists.
pub open spec fn listed_space_candidates(
    spaces: Seq<LocalOutput>,
    rows: Seq<(OutPoint, SpaceOut)>,
) -> Seq<LocalOutput>
    decreases spaces.len(),
{
    if spaces.len() == 0 {
        Seq::empty()
    } else {
        let rest = listed_space_candidates(spaces.drop_last(), rows);
        if partition_candidate(spaces.last()) && (find_spaceout(
            rows,
            spaces.last().outpoint,
        ) matches Some(so) && so.space is Some) {
            rest.push(spaces.last())
        } else {
            rest
        }
    }
}

/// Filter of already-selected candidates down to those whose snapshot row
/// binds a space.
pub open spec fn keep_with_space(
    cands: Seq<LocalOutput>,
    rows: Seq<(OutPoint, SpaceOut)>,
) -> Seq<LocalOutput>
    decreases cands.len(),
{
    if cands.len() == 0 {
        Seq::empty()
    } else {
        let rest = keep_with_space(cands.drop_last(), rows);
        if find_spaceout(rows, cands.last().outpoint) matches Some(so) && so.space is Some {
            rest.push(cands.last())
        } else {
            rest
        }
    }
}

/// Narrowing the space-carrying candidates to those whose row binds a
/// space gives exactly the listed candidates.
pub proof fn lemma_listed_is_kept(spaces: Seq<LocalOutput>, rows: Seq<(OutPoint, SpaceOut)>)
    ensures
        keep_with_space(space_candidates(spaces, rows), rows) == listed_space_candidates(
            spaces,
            rows,
        ),
    decreases spaces.len(),
{
    if spaces.len() == 0 {
        assert(keep_with_space(space_candidates(spaces, rows), rows) =~= listed_space_candidates(
            spaces,
            rows,
        ));
    } else {
        lemma_listed_is_kept(spaces.drop_last(), rows);
        let o = spaces.last();
        let rest_c = space_candidates(spaces.drop_last(), rows);
        if partition_candidate(o) && find_spaceout(rows, o.outpoint) is Some {
            assert(space_candidates(spaces, rows) == rest_c.push(o));
            assert(rest_c.push(o).drop_last() =~= rest_c);
        }
    }
}

/// Whether a returned space output is exactly the snapshot row at a
/// candidate's outpoint.
pub open spec fn matches_snapshot_row(
    f: FullSpaceOut,
    o: LocalOutput,
    rows: Seq<(OutPoint, SpaceOut)>,
) -> bool {
    f.outpoint == o.outpoint && (match find_spaceout(rows, o.outpoint) {
        Some(so) => f.spaceout.value == so.value && f.spaceout.script_pubkey@ == so.script_pubkey@
            && f.spaceout.space == so.space,
        None => false,
    })
}

/// Splits the spaces keychain into space-carrying outputs and coin-value
/// outputs: the coin-value outputs are exactly `coinout_filter`, and the
/// space-carrying ones pair each `space_candidates` outpoint, in order,
/// with the space output the snapshot holds there.
pub fn get_space_outputs(wallet: &SpacesWallet, store: &LiveSnapshot) -> (r: (
    Vec<FullSpaceOut>,
    Vec<LocalOutput>,
))
    ensures
        r.1@ == coinout_filter(wallet.spaces@, store.spaceouts@),
        r.0@.len() == space_candidates(wallet.spaces@, store.spaceouts@).len(),
        forall|k: int|
            0 <= k < r.0@.len() ==> matches_snapshot_row(
                #[trigger] r.0@[k],
                space_candidates(wallet.spaces@, store.spaceouts@)[k],
                store.spaceouts@,
            ),
{
    let mut spaceouts: Vec<FullSpaceOut> = Vec::new();
    let mut coinouts: Vec<LocalOutput> = Vec::new();
    let n: usize = wallet.spaces.len();
    proof {
        assert(wallet.spaces@.take(0) =~= Seq::<LocalOutput>::empty());
        assert(coinout_filter(wallet.spaces@.take(0), store.spaceouts@) =~= Seq::<
            LocalOutput,
        >::empty());
        assert(space_candidates(wallet.spaces@.take(0), store.spaceouts@) =~= Seq::<
            LocalOutput,
        >::empty());
    }
    let mut i: usize = 0;
    while i < n
        invariant
            n == wallet.spaces@.len(),
            0 <= i <= n,
            coinouts@ == coinout_filter(wallet.spaces@.take(i as int), store.spaceouts@),
            spaceouts@.len() == space_candidates(
                wallet.spaces@.take(i as int),
                store.spaceouts@,
            ).len(),
            forall|k: int|
                0 <= k < spaceouts@.len() ==> matches_snapshot_row(
                    #[trigger] spaceouts@[k],
                    space_candidates(wallet.spaces@.take(i as int), store.spaceouts@)[k],
                    store.spaceouts@,
                ),
        decreases n - i,
    {
        let o = wallet.spaces[i];
        let ghost done = wallet.spaces@.take(i as int);
        let ghost sub = wallet.spaces@.take(i as int + 1);
        proof {
            assert(sub.drop_last() =~= done);
            assert(sub.last() == o);
        }
        if o.external && !o.is_spent {
            match store.get_spaceout(o.outpoint) {
                None => {
                    coinouts.push(o);
                    proof {
                        assert(coinout_filter(sub, store.spaceouts@) == coinout_filter(
                            done,
                            store.spaceouts@,
                        ).push(o));
                        assert(space_candidates(sub, store.spaceouts@) == space_candidates(
                            done,
                            store.spaceouts@,
                        ));
                    }
                },
                Some(so) => {
                    spaceouts.push(FullSpaceOut { outpoint: o.outpoint, spaceout: so.duplicate() });
                    proof {
                        assert(coinout_filter(sub, store.spaceouts@) == coinout_filter(
                            done,
                            store.spaceouts@,
                        ));
                        assert(space_candidates(sub, store.spaceouts@) == space_candidates(
                            done,
                            store.spaceouts@,
                        ).push(o));
                    }
                },
            }
        } else {
            proof {
                assert(coinout_filter(sub, store.spaceouts@) == coinout_filter(
                    done,
                    store.spaceouts@,
                ));
                assert(space_candidates(sub, store.spaceouts@) == space_candidates(
                    done,
                    store.spaceouts@,
                ));
            }
        }
        i += 1;
    }
    proof {
        assert(wallet.spaces@.take(n as int) =~= wallet.spaces@);
    }
    (spaceouts, coinouts)
}


/// Value of the coin-value outputs that count as confirmed (matured or
/// not).
pub open spec fn spaces_confirmed_value(
    spaces: Seq<LocalOutput>,
    rows: Seq<(OutPoint, SpaceOut)>,
) -> nat {
    sum_status(coinout_filter(spaces, rows), OutputStatus::Confirmed) + sum_status(
        coinout_filter(spaces, rows),
        OutputStatus::Immature,
    )
}

/// Value of the coin-value outputs still pending.
pub open spec fn spaces_pending_value(
    spaces: Seq<LocalOutput>,
    rows: Seq<(OutPoint, SpaceOut)>,
) -> nat {
    sum_status(coinout_filter(spaces, rows), OutputStatus::TrustedPending) + sum_status(
        coinout_filter(spaces, rows),
        OutputStatus::UntrustedPending,
    )
}

proof fn lemma_filter_status_le(s: Seq<LocalOutput>, rows: Seq<(OutPoint, SpaceOut)>, st: OutputStatus)
    ensures
        sum_status(coinout_filter(s, rows), st) <= sum_status(s, st),
    decreases s.len(),
{
    if s.len() > 0 {
        lemma_filter_status_le(s.drop_last(), rows, st);
        let rest = coinout_filter(s.drop_last(), rows);
        if partition_candidate(s.last()) && find_spaceout(rows, s.last().outpoint) is None {
            assert(rest.push(s.last()).drop_last() =~= rest);
        }
    }
}

proof fn lemma_no_status_sum_zero(s: Seq<LocalOutput>, st: OutputStatus)
    requires
        forall|j: int| 0 <= j < s.len() ==> (#[trigger] s[j]).status != st,
    ensures
        sum_status(s, st) == 0,
    decreases s.len(),
{
    if s.len() > 0 {
        assert(s.drop_last().len() == s.len() - 1);
        assert(forall|j: int| 0 <= j < s.drop_last().len() ==> (#[trigger] s.drop_last()[j]).status
            != st);
        lemma_no_status_sum_zero(s.drop_last(), st);
    }
}

/// The confirmed side of a wallet's balance.
#[derive(Debug, Clone, Copy, PartialEq, Eq, Structural)]
pub struct ConfirmedBalance {
    pub total: u64,
    pub spendable: u64,
    pub immature: u64,
    pub locked: u64,
}

/// The unconfirmed side of a wallet's balance.
#[derive(Debug, Clone, Copy, PartialEq, Eq, Structural)]
pub struct UnconfirmedBalance {
    pub total: u64,
    pub locked: u64,
}

/// Both keychains' balances joined, with spaces-keychain value split into
/// spendable coin value and value locked under spaces.
#[derive(Debug, Clone, Copy, PartialEq, Eq, Structural)]
pub struct JointBalance {
    pub confirmed: ConfirmedBalance,
    pub unconfirmed: UnconfirmedBalance,
}

/// Joins the two keychains' balances. Within the spaces keychain only
/// coin-value outputs are spendable as coins; the rest of its confirmed
/// value is reported as locked. Spaces-keychain outputs are never coinbase,
/// so an immature output there is left out by precondition.
///
/// The ensured equations carry the balance laws: everything confirmed plus
/// everything unconfirmed is exactly the wallet's unspent coins plus its
/// unspent coin-value outputs; what is spendable never exceeds the
/// confirmed total; and locked value plus coin value is exactly the spaces
/// keychain's confirmed balance. Note the reading of "the wallet's utxos"
/// in the first law: value locked under spaces is not part of either
/// total — it is reported only through the `locked` fields — so the sum
/// ranges over the coins keychain and the coin-value outputs alone.
pub fn get_joint_balance(store: &LiveSnapshot, wallet: &SpacesWallet) -> (r: JointBalance)
    requires
        forall|j: int|
            0 <= j < wallet.spaces@.len() ==> (#[trigger] wallet.spaces@[j]).status
                != OutputStatus::Immature,
        unspent_sum(wallet.coins@) + unspent_sum(wallet.spaces@) <= u64::MAX,
    ensures
        ({
            let sc = spaces_confirmed_value(wallet.spaces@, store.spaceouts@);
            let sp = spaces_pending_value(wallet.spaces@, store.spaceouts@);
            let sconf = sum_status(wallet.spaces@, OutputStatus::Confirmed);
            let stp = sum_status(wallet.spaces@, OutputStatus::TrustedPending);
            let sup = sum_status(wallet.spaces@, OutputStatus::UntrustedPending);
            let cim = sum_status(wallet.coins@, OutputStatus::Immature);
            let ctp = sum_status(wallet.coins@, OutputStatus::TrustedPending);
            let cup = sum_status(wallet.coins@, OutputStatus::UntrustedPending);
            let cconf = sum_status(wallet.coins@, OutputStatus::Confirmed);
            &&& r.confirmed.total as nat == sc + cconf + cim
            &&& r.confirmed.spendable as nat == sc + cconf
            &&& r.confirmed.immature as nat == cim
            &&& r.confirmed.locked as nat == sconf - sc
            &&& r.unconfirmed.total as nat == sp + ctp + cup
            &&& r.unconfirmed.locked as nat == (stp + sup) - sp
            &&& r.confirmed.total + r.unconfirmed.total == unspent_sum(wallet.coins@)
                + unspent_sum(coinout_filter(wallet.spaces@, store.spaceouts@))
            &&& r.confirmed.spendable <= r.confirmed.total
            &&& r.confirmed.locked + sc == sconf
        }),
{
    let ghost rows = store.spaceouts@;
    let (_spaceouts, coinouts) = get_space_outputs(wallet, store);
    proof {
        lemma_filter_status_le(wallet.spaces@, rows, OutputStatus::Confirmed);
        lemma_filter_status_le(wallet.spaces@, rows, OutputStatus::Immature);
        lemma_filter_status_le(wallet.spaces@, rows, OutputStatus::TrustedPending);
        lemma_filter_status_le(wallet.spaces@, rows, OutputStatus::UntrustedPending);
        lemma_no_status_sum_zero(wallet.spaces@, OutputStatus::Immature);
        lemma_sum_parts(wallet.coins@);
        lemma_sum_parts(wallet.spaces@);
        lemma_sum_parts(coinout_filter(wallet.spaces@, rows));
    }
    let spaces_bal = keychain_balance(&wallet.spaces);
    let coins_bal = keychain_balance(&wallet.coins);
    let cb = keychain_balance(&coinouts);
    let spaces_confirmed = cb.confirmed + cb.immature;
    let spaces_pending = cb.trusted_pending + cb.untrusted_pending;
    JointBalance {
        confirmed: ConfirmedBalance {
            total: spaces_confirmed + spaces_bal.immature + coins_bal.confirmed
                + coins_bal.immature,
            spendable: spaces_confirmed + coins_bal.confirmed,
            immature: spaces_bal.immature + coins_bal.immature,
            locked: spaces_bal.confirmed - spaces_confirmed,
        },
        unconfirmed: UnconfirmedBalance {
            total: spaces_pending + coins_bal.trusted_pending + coins_bal.untrusted_pending,
            locked: (spaces_bal.untrusted_pending + spaces_bal.trusted_pending) - spaces_pending,
        },
    }
}

/// Unspent outputs of a keychain, in order.
pub open spec fn unspent_filter(s: Seq<LocalOutput>) -> Seq<LocalOutput>
    decreases s.len(),
{
    if s.len() == 0 {
        Seq::empty()
    } else {
        let rest = unspent_filter(s.drop_last());
        if !s.last().is_spent {
            rest.push(s.last())
        } else {
            rest
        }
    }
}

/// What `ListUnspent` answers: the spaces keychain's coin-value outputs,
/// then the coins keychain's unspent outputs.
pub fn list_unspent(wallet: &SpacesWallet, store: &LiveSnapshot) -> (r: Vec<LocalOutput>)
    ensures
        r@ == coinout_filter(wallet.spaces@, store.spaceouts@) + unspent_filter(wallet.coins@),
{
    let (_spaceouts, mut all) = get_space_outputs(wallet, store);
    let ghost base = all@;
    proof {
        assert(wallet.coins@.take(0) =~= Seq::<LocalOutput>::empty());
        assert(base + unspent_filter(wallet.coins@.take(0)) =~= base);
    }
    let n: usize = wallet.coins.len();
    let mut i: usize = 0;
    while i < n
        invariant
            n == wallet.coins@.len(),
            0 <= i <= n,
            all@ == base + unspent_filter(wallet.coins@.take(i as int)),
        decreases n - i,
    {
        let o = wallet.coins[i];
        proof {
            assert(wallet.coins@.take(i as int + 1).drop_last() =~= wallet.coins@.take(i as int));
            assert(wallet.coins@.take(i as int + 1).last() == o);
        }
        if !o.is_spent {
            all.push(o);
        }
        i += 1;
    }
    proof {
        assert(wallet.coins@.take(n as int) =~= wallet.coins@);
    }
    all
}

/// A coin-value output prepared for coin selection: spendable as a foreign
/// input with replace-by-fee enabled, at the spaces descriptor's
/// satisfaction weight.
#[derive(Debug, Clone, Copy, PartialEq, Eq, Structural)]
pub struct WeightedUtxo {
    pub satisfaction_weight: u64,
    pub outpoint: OutPoint,
    pub value: u64,
    pub rbf: bool,
}

/// The selection the batch builder spends from: confirmed, unspent
/// coin-value outputs.
pub open spec fn selection_spec(s: Seq<LocalOutput>, weight: u64) -> Seq<WeightedUtxo>
    decreases s.len(),
{
    if s.len() == 0 {
        Seq::empty()
    } else {
        let rest = selection_spec(s.drop_last(), weight);
        if is_confirmed(s.last()) && !s.last().is_spent {
            rest.push(
                WeightedUtxo {
                    satisfaction_weight: weight,
                    outpoint: s.last().outpoint,
                    value: s.last().value,
                    rbf: true,
                },
            )
        } else {
            rest
        }
    }
}

/// Coin selection over the spaces keychain's confirmed coin-value outputs.
#[derive(Debug)]
pub struct SpacesAwareCoinSelection {
    pub coinouts: Vec<WeightedUtxo>,
}

/// Builds the coin selection: every confirmed, unspent coin-value output,
/// weighted by the spaces descriptor's maximum satisfaction weight, with
/// replace-by-fee enabled.
pub fn get_spaces_coin_selection(
    wallet: &SpacesWallet,
    store: &LiveSnapshot,
    satisfaction_weight: u64,
) -> (r: SpacesAwareCoinSelection)
    ensures
        r.coinouts@ == selection_spec(
            coinout_filter(wallet.spaces@, store.spaceouts@),
            satisfaction_weight,
        ),
{
    let (_spaceouts, coinouts) = get_space_outputs(wallet, store);
    let mut picked: Vec<WeightedUtxo> = Vec::new();
    proof {
        assert(coinouts@.take(0) =~= Seq::<LocalOutput>::empty());
    }
    let n: usize = coinouts.len();
    let mut i: usize = 0;
    while i < n
        invariant
            n == coinouts@.len(),
            0 <= i <= n,
            picked@ == selection_spec(coinouts@.take(i as int), satisfaction_weight),
        decreases n - i,
    {
        let o = coinouts[i];
        proof {
            assert(coinouts@.take(i as int + 1).drop_last() =~= coinouts@.take(i as int));
            assert(coinouts@.take(i as int + 1).last() == o);
        }
        if (match o.status {
            OutputStatus::Confirmed => true,
            OutputStatus::Immature => true,
            _ => false,
        }) && !o.is_spent {
            picked.push(
                WeightedUtxo {
                    satisfaction_weight,
                    outpoint: o.outpoint,
                    value: o.value,
                    rbf: true,
                },
            );
        }
        i += 1;
    }
    proof {
        assert(coinouts@.take(n as int) =~= coinouts@);
    }
    SpacesAwareCoinSelection { coinouts: picked }
}

} // verus!
