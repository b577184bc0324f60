//! Block fetching: parsing `getblock` replies (with the byte-level fast
//! path that avoids a structural JSON parse), and the ingest state machine
//! that re-orders concurrently fetched blocks, emits them in strict height
//! order, and detects reorganizations by parent-hash continuity.
//!
//! The worker pool, the channels and the supervisor thread live outside the
//! crate; they drive [`BlockIngest`] one step at a time.

use vstd::prelude::*;

use crate::chain::{ChainHash, RpcBlockId};
use crate::encoding::{decoded_bytes, first_non_hex, hex_to_bytes};
use crate::rpc::{BitcoinRpcError, JsonRpcError, JsonRpcResponse};

verus! {

use vstd::string::StringSliceAdditionalSpecFns;

/// Why a fetch generation ended: an RPC failure, a parent-hash mismatch
/// (the reorg signal), or a closed channel / cancelled generation.
#[derive(Debug)]
pub enum BlockFetchError {
    RpcError(BitcoinRpcError),
    BlockMismatch,
    ChannelClosed,
}

impl From<BitcoinRpcError> for BlockFetchError {
    fn from(err: BitcoinRpcError) -> (r: Self) {
        BlockFetchError::RpcError(err)
    }
}

impl vstd::std_specs::convert::FromSpecImpl<BitcoinRpcError> for BlockFetchError {
    open spec fn obeys_from_spec() -> bool {
        true
    }

    open spec fn from_spec(err: BitcoinRpcError) -> BlockFetchError {
        BlockFetchError::RpcError(err)
    }
}

#[verifier::external_type_specification]
#[verifier::external_body]
pub struct ExBlock(bitcoin::Block);

/// What the downstream consumer receives: a block with its id, in strict
/// height order, or the error that ended the generation.
pub enum BlockEvent {
    Block(RpcBlockId, bitcoin::Block),
    Error(BlockFetchError),
}

/// Whether the consensus codec accepts `bytes` as one whole block encoding.
pub uninterp spec fn block_decodes(bytes: Seq<u8>) -> bool;

/// Relies on bitcoin's `consensus::encode::deserialize`: it returns `Ok`
/// exactly when the bytes are a single well-formed block encoding with
/// nothing left over, and the outcome depends on the bytes alone.
#[verifier::external_body]
fn decode_block(raw: &Vec<u8>) -> (r: Option<bitcoin::Block>)
    ensures
        r is Some <==> block_decodes(raw@),
{
    bitcoin::consensus::encode::deserialize(raw.as_slice()).ok()
}

/// The reply envelope read out of `bytes`: `None` when it is not a JSON
/// object in the expected shape, otherwise the `result` string (if any),
/// the `error` object's code and message (if any), and the echoed id.
pub uninterp spec fn rpc_envelope_of(bytes: Seq<u8>) -> Option<
    (Option<Seq<char>>, Option<(i32, Seq<char>)>, Seq<char>),
>;

/// Relies on serde_json's `from_slice` to read a reply envelope
/// `{"result":..,"error":..,"id":..}`; the envelope read out of a byte
/// sequence depends on the bytes alone.
#[verifier::external_body]
fn parse_envelope(raw: &Vec<u8>) -> (r: Option<JsonRpcResponse<String>>)
    ensures
        match rpc_envelope_of(raw@) {
            None => r is None,
            Some((res, err, id)) => r matches Some(env) && env.id@ == id && (match res {
                Some(rs) => env.result matches Some(x) && x@ == rs,
                None => env.result is None,
            }) && (match err {
                Some((code, msg)) => env.error matches Some(j) && j.code == code && j.message@
                    == msg,
                None => env.error is None,
            }),
        },
{
    let v: serde_json::Value = serde_json::from_slice(raw.as_slice()).ok()?;
    let code = v["error"]["code"].as_i64().and_then(|c| i32::try_from(c).ok());
    let error = match (code, v["error"]["message"].as_str()) {
        (Some(code), Some(m)) => Some(JsonRpcError { code, message: m.to_string() }),
        _ => None,
    };
    let result = v["result"].as_str().map(str::to_string);
    let id = v["id"].as_str().unwrap_or("").to_string();
    Some(JsonRpcResponse { result, error, id })
}

pub open spec fn seq_starts_with(s: Seq<u8>, p: Seq<u8>) -> bool {
    s.len() >= p.len() && s.subrange(0, p.len() as int) == p
}

pub open spec fn seq_ends_with(s: Seq<u8>, p: Seq<u8>) -> bool {
    s.len() >= p.len() && s.subrange(s.len() - p.len(), s.len() as int) == p
}

fn bytes_start_with(s: &Vec<u8>, p: &Vec<u8>) -> (r: bool)
    ensures
        r == seq_starts_with(s@, p@),
{
    if s.len() < p.len() {
        proof {
            assert(!seq_starts_with(s@, p@));
        }
        return false;
    }
    let mut i: usize = 0;
    while i < p.len()
        invariant
            s@.len() >= p@.len(),
            0 <= i <= p@.len(),
            forall|j: int| 0 <= j < i ==> s@[j] == p@[j],
        decreases p@.len() - i,
    {
        if s[i] != p[i] {
            proof {
                assert(s@.subrange(0, p@.len() as int)[i as int] != p@[i as int]);
            }
            return false;
        }
        i += 1;
    }
    proof {
        assert(s@.subrange(0, p@.len() as int) =~= p@);
    }
    true
}

fn bytes_end_with(s: &Vec<u8>, p: &Vec<u8>) -> (r: bool)
    ensures
        r == seq_ends_with(s@, p@),
{
    if s.len() < p.len() {
        proof {
            assert(!seq_ends_with(s@, p@));
        }
        return false;
    }
    let slen: usize = s.len();
    let off: usize = slen - p.len();
    let mut i: usize = 0;
    while i < p.len()
        invariant
            slen == s@.len(),
            s@.len() >= p@.len(),
            off == s@.len() - p@.len(),
            0 <= i <= p@.len(),
            forall|j: int| 0 <= j < i ==> s@[off + j] == p@[j],
        decreases p@.len() - i,
    {
        if s[off + i] != p[i] {
            proof {
                assert(s@.subrange(s@.len() - p@.len(), s@.len() as int)[i as int] != p@[i as int]);
            }
            return false;
        }
        i += 1;
    }
    proof {
        assert(s@.subrange(s@.len() - p@.len(), s@.len() as int) =~= p@);
    }
    true
}

/// The literal prefix a fast-path `getblock` reply starts with.
pub open spec fn start_needle() -> Seq<u8> {
    ("{\"result\":\"").spec_bytes()
}

/// The literal suffix a fast-path reply ends with (before an optional
/// trailing newline): the closing quote, a null error, and the echoed id.
pub open spec fn end_needle(id: u64) -> Seq<u8> {
    ("\",\"error\":null,\"id\":\"").spec_bytes() + crate::encoding::dec_digits(id as nat) + (
    "\"}").spec_bytes()
}

/// The hex payload the fast path slices out of `raw` for request `id`:
/// present when the reply starts with `{"result":"` and ends with the id
/// needle, with or without a trailing newline (servers differ on the
/// newline).
pub open spec fn block_hex_payload(raw: Seq<u8>, id: u64) -> Option<Seq<u8>> {
    if raw.len() >= start_needle().len() + end_needle(id).len() + 1 && seq_starts_with(
        raw,
        start_needle(),
    ) && seq_ends_with(raw, end_needle(id) + seq![10u8]) {
        Some(
            raw.subrange(
                start_needle().len() as int,
                raw.len() - (end_needle(id).len() + 1),
            ),
        )
    } else if raw.len() >= start_needle().len() + end_needle(id).len() && seq_starts_with(
        raw,
        start_needle(),
    ) && seq_ends_with(raw, end_needle(id)) {
        Some(raw.subrange(start_needle().len() as int, raw.len() - end_needle(id).len()))
    } else {
        None
    }
}

/// Whether a hex payload decodes to an acceptable block: even length, hex
/// digits throughout, a well-formed block encoding, and long enough to
/// carry a header.
pub open spec fn hex_payload_ok(hex: Seq<u8>) -> bool {
    &&& hex.len() % 2 == 0
    &&& first_non_hex(hex, 0, hex.len() as int) == hex.len()
    &&& block_decodes(decoded_bytes(hex))
    &&& decoded_bytes(hex).len() >= 36
}

/// A block fetched by a worker: the decoded block and the parent hash read
/// from its header's encoding.
pub struct FetchedBlock {
    pub parent: ChainHash,
    pub block: bitcoin::Block,
}

/// Decodes a hex payload into a block and its parent hash (bytes 4..36 of
/// the block encoding, in internal order).
fn decode_hex_payload(hex: Vec<u8>) -> (r: Result<FetchedBlock, BitcoinRpcError>)
    ensures
        r is Ok <==> hex_payload_ok(hex@),
        r matches Ok(fb) ==> fb.parent.bytes@ == decoded_bytes(hex@).subrange(4, 36)
            && fb.parent.wf(),
{
    if hex.len() % 2 != 0 {
        return Err(
            BitcoinRpcError::Other("Parse error: could not hex decode block".to_owned()),
        );
    }
    let raw_block = match hex_to_bytes(hex) {
        Ok(b) => b,
        Err(_) => {
            return Err(BitcoinRpcError::Other("Hex deserialize error".to_owned()));
        },
    };
    let block = match decode_block(&raw_block) {
        Some(b) => b,
        None => {
            return Err(BitcoinRpcError::Other("Block Deserialize error".to_owned()));
        },
    };
    if raw_block.len() < 36 {
        return Err(BitcoinRpcError::Other("Block Deserialize error".to_owned()));
    }
    let mut parent_bytes: Vec<u8> = Vec::new();
    let mut i: usize = 4;
    while i < 36
        invariant
            4 <= i <= 36,
            raw_block@.len() >= 36,
            parent_bytes@.len() == i - 4,
            forall|j: int| 0 <= j < i - 4 ==> parent_bytes@[j] == raw_block@[4 + j],
        decreases 36 - i,
    {
        parent_bytes.push(raw_block[i]);
        i += 1;
    }
    proof {
        assert(parent_bytes@ =~= raw_block@.subrange(4, 36));
    }
    Ok(FetchedBlock { parent: ChainHash::new(parent_bytes), block })
}

/// Interprets a raw `getblock` reply body for request `id`. The fast path
/// slices the hex out of the envelope byte-for-byte; any other shape falls
/// back to a structural JSON parse of the envelope. Either way the hex must
/// be even-length, fully hexadecimal, and a well-formed block encoding.
pub fn parse_block_response(raw: Vec<u8>, id: u64) -> (r: Result<FetchedBlock, BitcoinRpcError>)
    ensures
        match block_hex_payload(raw@, id) {
            Some(hex) => (r is Ok <==> hex_payload_ok(hex)) && (r matches Ok(fb) ==> fb.parent.bytes@
                == decoded_bytes(hex).subrange(4, 36) && fb.parent.wf()),
            None => match rpc_envelope_of(raw@) {
                None => r is Err,
                Some((res, err, _)) => match err {
                    Some((code, msg)) => r matches Err(BitcoinRpcError::Rpc(j)) && j.code == code
                        && j.message@ == msg,
                    None => match res {
                        None => r is Err,
                        Some(rs) => {
                            let hex = vstd::utf8::encode_utf8(rs);
                            (r is Ok <==> hex_payload_ok(hex)) && (r matches Ok(fb) ==> fb.parent.bytes@
                                == decoded_bytes(hex).subrange(4, 36) && fb.parent.wf())
                        },
                    },
                },
            },
        },
{
    let start = ("{\"result\":\"").as_bytes_vec();
    let mut needle: Vec<u8> = Vec::new();
    crate::fetcher::append_needle(&mut needle, id);
    let mut needle_nl = needle.clone();
    needle_nl.push(10);
    proof {
        assert(needle_nl@ =~= end_needle(id) + seq![10u8]);
    }
    if raw.len() >= needle_nl.len() && raw.len() - needle_nl.len() >= start.len()
        && bytes_start_with(&raw, &start) && bytes_end_with(&raw, &needle_nl) {
        let hex = crate::encoding::copy_range(&raw, start.len(), raw.len() - needle_nl.len());
        return decode_hex_payload(hex);
    }
    if raw.len() >= needle.len() && raw.len() - needle.len() >= start.len() && bytes_start_with(
        &raw,
        &start,
    ) && bytes_end_with(&raw, &needle) {
        let hex = crate::encoding::copy_range(&raw, start.len(), raw.len() - needle.len());
        return decode_hex_payload(hex);
    }
    match parse_envelope(&raw) {
        None => Err(BitcoinRpcError::Other("Parse error: bad reply envelope".to_owned())),
        Some(env) => {
            if let Some(e) = env.error {
                return Err(BitcoinRpcError::Rpc(e));
            }
            match env.result {
                None => Err(BitcoinRpcError::Other("Parse error: reply without result".to_owned())),
                Some(hex_string) => {
                    let hex = hex_string.as_str().as_bytes_vec();
                    decode_hex_payload(hex)
                },
            }
        },
    }
}

/// Appends the id needle `","error":null,"id":"<id>"}` to `out`.
fn append_needle(out: &mut Vec<u8>, id: u64)
    ensures
        final(out)@ == old(out)@ + end_needle(id),
{
    let mut t = ("\",\"error\":null,\"id\":\"").as_bytes_vec();
    out.append(&mut t);
    let mut d = crate::encoding::u64_to_dec(id);
    out.append(&mut d);
    let mut c = ("\"}").as_bytes_vec();
    out.append(&mut c);
    proof {
        assert(final(out)@ =~= old(out)@ + end_needle(id));
    }
}

/// Index of the first buffered entry sitting at height `h`, or the
/// buffer's length when no entry is there yet.
pub open spec fn buffer_first_at(buf: Seq<(RpcBlockId, FetchedBlock)>, h: u32) -> int
    decreases buf.len(),
{
    if buf.len() == 0 {
        0
    } else if buf[0].0.height == h {
        0
    } else {
        1 + buffer_first_at(buf.drop_first(), h)
    }
}

proof fn lemma_buffer_first_at(buf: Seq<(RpcBlockId, FetchedBlock)>, h: u32, k: int)
    requires
        0 <= k <= buf.len(),
        forall|j: int| 0 <= j < k ==> (#[trigger] buf[j]).0.height != h,
        k == buf.len() || buf[k].0.height == h,
    ensures
        buffer_first_at(buf, h) == k,
    decreases k, buf.len(),
{
    if buf.len() == 0 {
    } else if k == 0 {
        if buf.len() > 0 && buf[0].0.height != h {
            assert(forall|j: int|
                0 <= j < buf.drop_first().len() ==> #[trigger] buf.drop_first()[j] == buf[j + 1]);
            lemma_buffer_first_at(buf.drop_first(), h, buf.drop_first().len() as int);
        }
    } else {
        assert(forall|j: int|
            0 <= j < buf.drop_first().len() ==> #[trigger] buf.drop_first()[j] == buf[j + 1]);
        lemma_buffer_first_at(buf.drop_first(), h, k - 1);
    }
}

/// One block as the consumer saw it: its height and hash, and the parent
/// hash its header carried.
pub struct EmittedBlock {
    pub height: u32,
    pub hash: Seq<u8>,
    pub parent: Seq<u8>,
}

/// The ordering guarantee of one ingest batch: block `i` sits at height
/// `start_height + 1 + i` and names the hash before it as its parent.
pub open spec fn chain_ok(start_height: u32, start_hash: Seq<u8>, emitted: Seq<EmittedBlock>) -> bool {
    forall|i: int|
        0 <= i < emitted.len() ==> (#[trigger] emitted[i]).height == start_height + 1 + i
            && emitted[i].parent == (if i == 0 {
            start_hash
        } else {
            emitted[i - 1].hash
        })
}

/// The in-order emission core of one fetch batch. Workers post completed
/// blocks in any order; the machine buffers them, hands out the next height
/// to queue, and releases blocks in strict height order, refusing a block
/// whose parent hash is not the hash emitted just before it.
pub struct BlockIngest {
    pub next_emit_height: u32,
    pub previous_hash: ChainHash,
    pub buffer: Vec<(RpcBlockId, FetchedBlock)>,
    pub end_height: u32,
    pub queued_height: u32,
    pub start: Ghost<(u32, Seq<u8>)>,
    pub emitted: Ghost<Seq<EmittedBlock>>,
}

impl BlockIngest {
    pub open spec fn wf(&self) -> bool {
        &&& self.previous_hash.wf()
        &&& self.start@.1.len() == 32
        &&& chain_ok(self.start@.0, self.start@.1, self.emitted@)
        &&& forall|i: int|
            0 <= i < self.emitted@.len() ==> (#[trigger] self.emitted@[i]).hash.len() == 32
        &&& self.next_emit_height as int == self.start@.0 + 1 + self.emitted@.len()
        &&& self.previous_hash.bytes@ == (if self.emitted@.len() == 0 {
            self.start@.1
        } else {
            self.emitted@.last().hash
        })
        &&& self.end_height < 0xffff_ffffu32
        &&& self.start@.0 < self.end_height
        &&& self.next_emit_height as int <= self.end_height + 1
        &&& self.queued_height as int <= self.end_height + 1
        &&& forall|i: int|
            0 <= i < self.buffer@.len() ==> (#[trigger] self.buffer@[i]).0.hash.wf()
                && self.buffer@[i].1.parent.wf() && self.buffer@[i].0.height <= self.end_height
    }

    /// Opens a batch that will emit heights `start.height + 1 ..= end_height`.
    pub fn new(start: &RpcBlockId, end_height: u32) -> (r: BlockIngest)
        requires
            start.wf(),
            start.height < end_height,
            end_height < 0xffff_ffffu32,
        ensures
            r.wf(),
            r.start@ == (start.height, start.hash.bytes@),
            r.emitted@ == Seq::<EmittedBlock>::empty(),
            r.end_height == end_height,
            r.next_emit_height == start.height + 1,
            r.queued_height == start.height + 1,
            r.buffer@.len() == 0,
    {
        BlockIngest {
            next_emit_height: start.height + 1,
            previous_hash: start.hash.duplicate(),
            buffer: Vec::new(),
            end_height,
            queued_height: start.height + 1,
            start: Ghost((start.height, start.hash.bytes@)),
            emitted: Ghost(Seq::empty()),
        }
    }

    /// The next height a worker should fetch, while any are left in the
    /// batch. The caller also bounds how many fetches run at once; that
    /// bound is no concern of the ordering machine.
    pub fn take_next_height(&mut self) -> (r: Option<u32>)
        requires
            old(self).wf(),
        ensures
            final(self).wf(),
            old(self).queued_height <= old(self).end_height <==> r is Some,
            r matches Some(h) ==> h == old(self).queued_height && final(self).queued_height
                == old(self).queued_height + 1,
            r is None ==> *final(self) == *old(self),
            final(self).next_emit_height == old(self).next_emit_height,
            final(self).previous_hash == old(self).previous_hash,
            final(self).buffer == old(self).buffer,
            final(self).emitted == old(self).emitted,
            final(self).start == old(self).start,
            final(self).end_height == old(self).end_height,
    {
        if self.queued_height <= self.end_height {
            let h = self.queued_height;
            self.queued_height = self.queued_height + 1;
            Some(h)
        } else {
            None
        }
    }

    /// A worker posts a completed fetch.
    pub fn accept(&mut self, id: RpcBlockId, fetched: FetchedBlock)
        requires
            old(self).wf(),
            id.wf(),
            fetched.parent.wf(),
            id.height <= old(self).end_height,
        ensures
            final(self).wf(),
            final(self).buffer@ == old(self).buffer@.push((id, fetched)),
            final(self).next_emit_height == old(self).next_emit_height,
            final(self).previous_hash == old(self).previous_hash,
            final(self).emitted == old(self).emitted,
            final(self).start == old(self).start,
            final(self).end_height == old(self).end_height,
            final(self).queued_height == old(self).queued_height,
    {
        self.buffer.push((id, fetched));
    }

    /// Releases the block at the next height once a worker has delivered
    /// it: the first buffered entry at that height is taken out, and it is
    /// emitted exactly when the parent hash its header carried is the hash
    /// emitted just before; a differing parent is the reorg signal — the
    /// offending block is dropped, nothing is emitted, and the batch is
    /// over.
    pub fn try_emit_next(&mut self) -> (r: Option<
        Result<(RpcBlockId, bitcoin::Block), BlockFetchError>,
    >)
        requires
            old(self).wf(),
        ensures
            final(self).wf(),
            final(self).start == old(self).start,
            final(self).end_height == old(self).end_height,
            final(self).queued_height == old(self).queued_height,
            ({
                let buf = old(self).buffer@;
                let i = buffer_first_at(buf, old(self).next_emit_height);
                match r {
                    None => *final(self) == *old(self) && i == buf.len(),
                    Some(out) => match out {
                        Err(e) => (e matches BlockFetchError::BlockMismatch) && i < buf.len()
                            && buf[i].1.parent.bytes@ != old(self).previous_hash.bytes@
                            && final(self).buffer@ == buf.remove(i)
                            && final(self).emitted == old(self).emitted
                            && final(self).next_emit_height == old(self).next_emit_height
                            && final(self).previous_hash == old(self).previous_hash,
                        Ok(p) => i < buf.len()
                            && buf[i].1.parent.bytes@ == old(self).previous_hash.bytes@
                            && p.0 == buf[i].0 && p.1 == buf[i].1.block
                            && final(self).buffer@ == buf.remove(i)
                            && final(self).emitted@ == old(self).emitted@.push(
                            EmittedBlock {
                                height: buf[i].0.height,
                                hash: buf[i].0.hash.bytes@,
                                parent: buf[i].1.parent.bytes@,
                            },
                        ) && final(self).next_emit_height == old(self).next_emit_height + 1
                            && final(self).previous_hash.bytes@ == buf[i].0.hash.bytes@
                            && p.0.height == old(self).next_emit_height && p.0.hash.wf(),
                    },
                }
            }),
    {
        let n: usize = self.buffer.len();
        let mut i: usize = 0;
        let mut found: Option<usize> = None;
        while i < n && found.is_none()
            invariant
                n == self.buffer@.len(),
                0 <= i <= n,
                found is None ==> forall|j: int|
                    0 <= j < i ==> (#[trigger] self.buffer@[j]).0.height
                        != self.next_emit_height,
                found matches Some(k) ==> 0 <= k < n && self.buffer@[k as int].0.height
                    == self.next_emit_height && forall|j: int|
                    0 <= j < k ==> (#[trigger] self.buffer@[j]).0.height
                        != self.next_emit_height,
            decreases n - i, (if found is None { 1int } else { 0int }),
        {
            if self.buffer[i].0.height == self.next_emit_height {
                found = Some(i);
            } else {
                i += 1;
            }
        }
        let idx = match found {
            None => {
                proof {
                    lemma_buffer_first_at(
                        self.buffer@,
                        self.next_emit_height,
                        self.buffer@.len() as int,
                    );
                }
                return None;
            },
            Some(idx) => idx,
        };
        proof {
            lemma_buffer_first_at(self.buffer@, self.next_emit_height, idx as int);
        }
        let (id, fetched) = self.buffer.remove(idx);
        proof {
            assert(old(self).buffer@[idx as int].0.height == old(self).next_emit_height);
        }
        if !(fetched.parent == self.previous_hash) {
            return Some(Err(BlockFetchError::BlockMismatch));
        }
        let ghost prev = self.previous_hash.bytes@;
        let ghost parent_bytes = fetched.parent.bytes@;
        let hash_copy = id.hash.duplicate();
        self.previous_hash = hash_copy;
        self.next_emit_height = self.next_emit_height + 1;
        proof {
            assert(parent_bytes == prev);
            let entry = EmittedBlock {
                height: id.height,
                hash: id.hash.bytes@,
                parent: parent_bytes,
            };
            let ghost new_emitted = self.emitted@.push(entry);
            assert(chain_ok(self.start@.0, self.start@.1, new_emitted)) by {
                let s = self.start@.0;
                let sh = self.start@.1;
                let em = self.emitted@;
                assert forall|k: int| 0 <= k < new_emitted.len() implies (#[trigger] new_emitted[k]).height
                    == s + 1 + k && new_emitted[k].parent == (if k == 0 {
                    sh
                } else {
                    new_emitted[k - 1].hash
                }) by {
                    if k < em.len() {
                        assert(new_emitted[k] == em[k]);
                        if k > 0 {
                            assert(new_emitted[k - 1] == em[k - 1]);
                        }
                    } else {
                        assert(new_emitted[k] == entry);
                        if k > 0 {
                            assert(new_emitted[k - 1] == em[k - 1]);
                        }
                    }
                }
            }
        }
        self.emitted = Ghost(self.emitted@.push(EmittedBlock {
            height: id.height,
            hash: id.hash.bytes@,
            parent: fetched.parent.bytes@,
        }));
        Some(Ok((id, fetched.block)))
    }

    /// A batch is complete when every height was handed out, no fetch is
    /// still running (the caller knows its pool), and the buffer is empty.
    pub fn batch_done(&self, pool_active: usize) -> (r: bool)
        ensures
            r == (self.queued_height > self.end_height && pool_active == 0 && self.buffer@.len()
                == 0),
    {
        self.queued_height > self.end_height && pool_active == 0 && self.buffer.len() == 0
    }

    /// Where the batch stands: the last emitted block, or the start block
    /// while nothing was emitted. The supervisor resumes from here.
    pub fn final_block(&self) -> (r: RpcBlockId)
        requires
            self.wf(),
        ensures
            r.height as int == self.next_emit_height - 1,
            r.hash.bytes@ == self.previous_hash.bytes@,
            r.wf(),
    {
        RpcBlockId { height: self.next_emit_height - 1, hash: self.previous_hash.duplicate() }
    }
}

/// Every finite block sequence one ingest batch emits is a chain: heights
/// are consecutive from just above the start block, and each block's parent
/// hash is the hash of the block emitted before it (the start block's hash
/// for the first).
pub proof fn lemma_emitted_chain(ing: &BlockIngest)
    requires
        ing.wf(),
    ensures
        forall|i: int|
            0 <= i < ing.emitted@.len() ==> (#[trigger] ing.emitted@[i]).height == ing.start@.0 + 1
                + i,
        forall|i: int|
            1 <= i < ing.emitted@.len() ==> (#[trigger] ing.emitted@[i]).parent == ing.emitted@[i
                - 1].hash,
        ing.emitted@.len() > 0 ==> ing.emitted@[0].parent == ing.start@.1,
{
    assert forall|i: int| 1 <= i < ing.emitted@.len() implies (#[trigger] ing.emitted@[i]).parent
        == ing.emitted@[i - 1].hash by {
        assert(chain_ok(ing.start@.0, ing.start@.1, ing.emitted@));
        assert(ing.emitted@[i].height == ing.start@.0 + 1 + i);
    }
}

/// What the supervisor does after one `getblockcount` poll.
pub enum SupervisorAction {
    Fail(BlockFetchError),
    StartBatch { end_height: u32, concurrency: u32 },
    Idle,
}

/// The supervisor's decision after polling the tip: fail the generation on
/// an RPC error; open a batch up to the tip with at most eight concurrent
/// fetches when the tip is above the current block; otherwise stay idle.
pub fn supervisor_poll(start_height: u32, tip_result: Result<u32, BitcoinRpcError>) -> (r:
    SupervisorAction)
    ensures
        match tip_result {
            Err(e) => r matches SupervisorAction::Fail(f) && f matches BlockFetchError::RpcError(x)
                && x == e,
            Ok(tip) => if tip > start_height {
                r matches SupervisorAction::StartBatch { end_height, concurrency } && end_height
                    == tip && concurrency as int == (if tip - start_height < 8 {
                    tip - start_height
                } else {
                    8int
                })
            } else {
                r is Idle
            },
        },
{
    match tip_result {
        Err(e) => SupervisorAction::Fail(BlockFetchError::RpcError(e)),
        Ok(tip) => {
            if tip > start_height {
                let diff = tip - start_height;
                let concurrency = if diff < 8 {
                    diff
                } else {
                    8
                };
                SupervisorAction::StartBatch { end_height: tip, concurrency }
            } else {
                SupervisorAction::Idle
            }
        },
    }
}

} // verus!
