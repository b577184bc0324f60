//! Chain-level identifiers: a 32-byte block hash held in internal
//! (consensus-encoding) byte order, and a `(height, hash)` block id.
//!
//! The remote node spells hashes in display order, which is the reverse of
//! the internal order; the conversions between the two are explicit here so
//! that every contract can say which order a sequence of bytes is in.

use vstd::prelude::*;

verus! {

/// A block hash in internal byte order: the order the consensus encoding
/// uses, which is the reverse of the hex spelling the RPC interface shows.
#[derive(Debug)]
pub struct ChainHash {
    pub bytes: Vec<u8>,
}

impl ChainHash {
    /// A hash must hold exactly 32 bytes.
    pub open spec fn wf(&self) -> bool {
        self.bytes@.len() == 32
    }

    pub fn new(bytes: Vec<u8>) -> (r: ChainHash)
        requires
            bytes@.len() == 32,
        ensures
            r.bytes@ == bytes@,
            r.wf(),
    {
        ChainHash { bytes }
    }

    pub fn duplicate(&self) -> (r: ChainHash)
        ensures
            r.bytes@ == self.bytes@,
    {
        ChainHash { bytes: self.bytes.clone() }
    }

    /// The same hash in display order, as the RPC interface spells it.
    pub fn reversed_bytes(&self) -> (r: Vec<u8>)
        ensures
            r@ == self.bytes@.reverse(),
    {
        let n: usize = self.bytes.len();
        let mut out: Vec<u8> = Vec::new();
        let mut i: usize = 0;
        while i < n
            invariant
                n == self.bytes@.len(),
                0 <= i <= n,
                out@.len() == i,
                forall|j: int| 0 <= j < i ==> out@[j] == self.bytes@[n - 1 - j],
            decreases n - i,
        {
            out.push(self.bytes[n - 1 - i]);
            i += 1;
        }
        proof {
            assert(out@ =~= self.bytes@.reverse());
        }
        out
    }
}

impl PartialEq for ChainHash {
    fn eq(&self, other: &Self) -> (r: bool) {
        if self.bytes.len() != other.bytes.len() {
            return false;
        }
        let n: usize = self.bytes.len();
        let mut i: usize = 0;
        while i < n
            invariant
                n == self.bytes@.len() == other.bytes@.len(),
                0 <= i <= n,
                forall|j: int| 0 <= j < i ==> self.bytes@[j] == other.bytes@[j],
            decreases n - i,
        {
            if self.bytes[i] != other.bytes[i] {
                return false;
            }
            i += 1;
        }
        proof {
            assert(self.bytes@ =~= other.bytes@);
        }
        true
    }
}

impl vstd::std_specs::cmp::PartialEqSpecImpl for ChainHash {
    open spec fn obeys_eq_spec() -> bool {
        true
    }

    open spec fn eq_spec(&self, other: &ChainHash) -> bool {
        self.bytes@ == other.bytes@
    }
}

/// A point on the chain the remote node serves: a height and the hash of the
/// block at that height.
#[derive(Debug)]
pub struct RpcBlockId {
    pub height: u32,
    pub hash: ChainHash,
}

impl RpcBlockId {
    pub open spec fn wf(&self) -> bool {
        self.hash.wf()
    }

    pub fn duplicate(&self) -> (r: RpcBlockId)
        ensures
            r.height == self.height,
            r.hash.bytes@ == self.hash.bytes@,
    {
        RpcBlockId { height: self.height, hash: self.hash.duplicate() }
    }
}

} // verus!
