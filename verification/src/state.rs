//! The name-auction state as the wallet sees it: spaces keyed by their
//! space-hash, space-carrying outputs keyed by outpoint, space names with
//! their canonical encoding, and the recipient resolver.
//!
//! The auction database itself lives outside the crate; a snapshot of the
//! rows the wallet reads is held here as plain values.

use vstd::prelude::*;


verus! {

use vstd::string::StringSliceAdditionalSpecFns;

/// A transaction output reference: the transaction id held as four 64-bit
/// words of its internal byte order (least-significant word first), and the
/// output index.
#[derive(Debug, Clone, Copy, PartialEq, Eq, Structural)]
pub struct OutPoint {
    pub txid_w0: u64,
    pub txid_w1: u64,
    pub txid_w2: u64,
    pub txid_w3: u64,
    pub vout: u32,
}

/// What the auction state records about a space: whether its auction has
/// been won (owned) and, once in the claim phase, the height from which it
/// may be registered.
#[derive(Debug, Clone, Copy, PartialEq, Eq, Structural)]
pub struct Space {
    pub owned: bool,
    pub claim_height: Option<u32>,
}

impl Space {
    pub fn is_owned(&self) -> (r: bool)
        ensures
            r == self.owned,
    {
        self.owned
    }
}

/// An output as the auction state sees it: its coin value, its script, and
/// the space bound to it, if any.
#[derive(Debug)]
pub struct SpaceOut {
    pub value: u64,
    pub script_pubkey: Vec<u8>,
    pub space: Option<Space>,
}

impl SpaceOut {
    pub fn duplicate(&self) -> (r: SpaceOut)
        ensures
            r.value == self.value,
            r.script_pubkey@ == self.script_pubkey@,
            r.space == self.space,
    {
        SpaceOut {
            value: self.value,
            script_pubkey: self.script_pubkey.clone(),
            space: self.space,
        }
    }
}

/// A space output together with the outpoint it sits at.
#[derive(Debug)]
pub struct FullSpaceOut {
    pub outpoint: OutPoint,
    pub spaceout: SpaceOut,
}

impl FullSpaceOut {
    pub fn duplicate(&self) -> (r: FullSpaceOut)
        ensures
            r.outpoint == self.outpoint,
            r.spaceout.value == self.spaceout.value,
            r.spaceout.script_pubkey@ == self.spaceout.script_pubkey@,
            r.spaceout.space == self.spaceout.space,
    {
        FullSpaceOut { outpoint: self.outpoint, spaceout: self.spaceout.duplicate() }
    }
}

/// First match for a space-hash in the snapshot's space table.
pub open spec fn find_space(rows: Seq<(Vec<u8>, FullSpaceOut)>, hash: Seq<u8>) -> Option<
    FullSpaceOut,
>
    decreases rows.len(),
{
    if rows.len() == 0 {
        None
    } else if rows[0].0@ == hash {
        Some(rows[0].1)
    } else {
        find_space(rows.drop_first(), hash)
    }
}

/// First match for an outpoint in the snapshot's output table.
pub open spec fn find_spaceout(rows: Seq<(OutPoint, SpaceOut)>, op: OutPoint) -> Option<SpaceOut>
    decreases rows.len(),
{
    if rows.len() == 0 {
        None
    } else if rows[0].0 == op {
        Some(rows[0].1)
    } else {
        find_spaceout(rows.drop_first(), op)
    }
}

/// A read snapshot of the auction state: the spaces the wallet may ask
/// about, keyed by space-hash, and the space-carrying outputs keyed by
/// outpoint.
#[derive(Debug)]
pub struct LiveSnapshot {
    pub spaces: Vec<(Vec<u8>, FullSpaceOut)>,
    pub spaceouts: Vec<(OutPoint, SpaceOut)>,
}

impl LiveSnapshot {
    /// The space a hash names, if the snapshot holds it.
    pub fn get_space_info(&self, spacehash: &Vec<u8>) -> (r: Option<&FullSpaceOut>)
        ensures
            match r {
                Some(f) => find_space(self.spaces@, spacehash@) == Some(*f),
                None => find_space(self.spaces@, spacehash@) is None,
            },
    {
        let n: usize = self.spaces.len();
        proof {
            assert(self.spaces@.skip(0) =~= self.spaces@);
        }
        let mut i: usize = 0;
        while i < n
            invariant
                n == self.spaces@.len(),
                0 <= i <= n,
                find_space(self.spaces@, spacehash@) == find_space(
                    self.spaces@.skip(i as int),
                    spacehash@,
                ),
            decreases n - i,
        {
            proof {
                assert(self.spaces@.skip(i as int)[0] == self.spaces@[i as int]);
                assert(self.spaces@.skip(i as int).drop_first() =~= self.spaces@.skip(
                    i as int + 1,
                ));
            }
            let eq = crate::state::bytes_eq(&self.spaces[i].0, spacehash);
            if eq {
                return Some(&self.spaces[i].1);
            }
            i += 1;
        }
        proof {
            assert(self.spaces@.skip(n as int) =~= Seq::<(Vec<u8>, FullSpaceOut)>::empty());
        }
        None
    }

    /// The space output sitting at an outpoint, if the snapshot holds one.
    pub fn get_spaceout(&self, outpoint: OutPoint) -> (r: Option<&SpaceOut>)
        ensures
            match r {
                Some(s) => find_spaceout(self.spaceouts@, outpoint) == Some(*s),
                None => find_spaceout(self.spaceouts@, outpoint) is None,
            },
    {
        let n: usize = self.spaceouts.len();
        proof {
            assert(self.spaceouts@.skip(0) =~= self.spaceouts@);
        }
        let mut i: usize = 0;
        while i < n
            invariant
                n == self.spaceouts@.len(),
                0 <= i <= n,
                find_spaceout(self.spaceouts@, outpoint) == find_spaceout(
                    self.spaceouts@.skip(i as int),
                    outpoint,
                ),
            decreases n - i,
        {
            proof {
                assert(self.spaceouts@.skip(i as int)[0] == self.spaceouts@[i as int]);
                assert(self.spaceouts@.skip(i as int).drop_first() =~= self.spaceouts@.skip(
                    i as int + 1,
                ));
            }
            if self.spaceouts[i].0 == outpoint {
                return Some(&self.spaceouts[i].1);
            }
            i += 1;
        }
        proof {
            assert(self.spaceouts@.skip(n as int) =~= Seq::<(OutPoint, SpaceOut)>::empty());
        }
        None
    }
}

/// Byte-vector equality.
pub fn bytes_eq(a: &Vec<u8>, b: &Vec<u8>) -> (r: bool)
    ensures
        r == (a@ == b@),
{
    if a.len() != b.len() {
        return false;
    }
    let n: usize = a.len();
    let mut i: usize = 0;
    while i < n
        invariant
            n == a@.len() == b@.len(),
            0 <= i <= n,
            forall|j: int| 0 <= j < i ==> a@[j] == b@[j],
        decreases n - i,
    {
        if a[i] != b[i] {
            return false;
        }
        i += 1;
    }
    proof {
        assert(a@ =~= b@);
    }
    true
}

/// A label byte a space name may hold: a lowercase letter, a digit, or a
/// hyphen.
pub open spec fn is_name_byte(b: u8) -> bool {
    (97 <= b && b <= 122) || (48 <= b && b <= 57) || b == 45
}

/// A well-formed space name in text: an `@`, then one to sixty-three label
/// bytes.
pub open spec fn sname_parses(s: Seq<u8>) -> bool {
    &&& s.len() >= 2
    &&& s.len() <= 64
    &&& s[0] == 64
    &&& forall|i: int| 1 <= i < s.len() ==> is_name_byte(#[trigger] s[i])
}

/// A parsed space name: its label, without the `@`.
#[derive(Debug)]
pub struct SName {
    pub label: Vec<u8>,
}

impl SName {
    pub open spec fn wf(&self) -> bool {
        1 <= self.label@.len() <= 63 && forall|i: int|
            0 <= i < self.label@.len() ==> is_name_byte(#[trigger] self.label@[i])
    }

    /// Parses `@label`; exactly the strings `sname_parses` accepts parse.
    pub fn from_str(s: &str) -> (r: Option<SName>)
        ensures
            r is Some <==> sname_parses(s.spec_bytes()),
            r matches Some(n) ==> n.label@ == s.spec_bytes().skip(1) && n.wf(),
    {
        let bytes = s.as_bytes_vec();
        if bytes.len() < 2 || bytes.len() > 64 {
            return None;
        }
        if bytes[0] != 64 {
            proof {
                assert(bytes@[0] != 64);
                assert(!sname_parses(bytes@));
            }
            return None;
        }
        let mut i: usize = 1;
        while i < bytes.len()
            invariant
                bytes@ == s.spec_bytes(),
                2 <= bytes@.len() <= 64,
                1 <= i <= bytes@.len(),
                forall|j: int| 1 <= j < i ==> is_name_byte(#[trigger] bytes@[j]),
            decreases bytes@.len() - i,
        {
            let b = bytes[i];
            if !((97 <= b && b <= 122) || (48 <= b && b <= 57) || b == 45) {
                proof {
                    assert(!is_name_byte(bytes@[i as int]));
                    assert(!sname_parses(bytes@));
                    assert(bytes@ == s.spec_bytes());
                    assert(!sname_parses(s.spec_bytes()));
                }
                return None;
            }
            i += 1;
        }
        let label = crate::encoding::copy_range(&bytes, 1, bytes.len());
        proof {
            assert(bytes@ == s.spec_bytes());
            assert(sname_parses(bytes@));
            assert(label@ =~= bytes@.skip(1));
        }
        Some(SName { label })
    }

    /// The canonical byte encoding hashed into a space-hash: the label's
    /// length, the label, and a closing zero.
    pub fn to_bytes(&self) -> (r: Vec<u8>)
        requires
            self.wf(),
        ensures
            r@ == sname_encoding(self.label@),
    {
        let mut out: Vec<u8> = Vec::new();
        out.push(self.label.len() as u8);
        let mut body = self.label.clone();
        out.append(&mut body);
        out.push(0);
        proof {
            assert(out@ =~= sname_encoding(self.label@));
        }
        out
    }
}

/// Canonical encoding of a label: length byte, label bytes, closing zero.
pub open spec fn sname_encoding(label: Seq<u8>) -> Seq<u8>
    recommends
        label.len() <= 63,
{
    seq![label.len() as u8] + label + seq![0u8]
}

/// The SHA-256 digest of a byte sequence.
pub uninterp spec fn sha256_of(bytes: Seq<u8>) -> Seq<u8>;

/// Relies on bitcoin_hashes' SHA-256 (`sha256::Hash::hash`): a 32-byte
/// digest that depends on the input bytes alone.
#[verifier::external_body]
pub fn sha256(data: &Vec<u8>) -> (r: Vec<u8>)
    ensures
        r@ == sha256_of(data@),
        r@.len() == 32,
{
    let digest = <bitcoin::hashes::sha256::Hash as bitcoin::hashes::Hash>::hash(
        data.as_slice(),
    );
    <bitcoin::hashes::sha256::Hash as bitcoin::hashes::Hash>::to_byte_array(digest).to_vec()
}

/// The space-hash of a name: SHA-256 over its canonical encoding.
pub fn space_hash(name: &SName) -> (r: Vec<u8>)
    requires
        name.wf(),
    ensures
        r@ == sha256_of(sname_encoding(name.label@)),
        r@.len() == 32,
{
    let encoded = name.to_bytes();
    sha256(&encoded)
}

} // verus!
