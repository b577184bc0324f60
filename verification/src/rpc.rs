//! JSON-RPC client core: request envelopes, authentication tokens, the
//! error taxonomy with its temporary/fatal classification, the retry
//! schedule applied to a sequence of transport outcomes, and the mempool
//! poll that follows a broadcast.
//!
//! The HTTP transport itself lives outside the crate; it is handed a
//! prepared [`BitcoinRpcRequest`] and returns one outcome per attempt.

use vstd::prelude::*;

use crate::chain::ChainHash;
use crate::encoding::{bytes_to_hex, dec_digits, hex_of};

verus! {

use vstd::string::StringSliceAdditionalSpecFns;

/// Client still warming up.
pub const BITCOIN_RPC_IN_WARMUP: i32 = -28;

/// Bitcoin is not connected.
pub const BITCOIN_RPC_CLIENT_NOT_CONNECTED: i32 = -9;

/// Still downloading initial blocks.
pub const BITCOIN_RPC_CLIENT_IN_INITIAL_DOWNLOAD: i32 = -10;

/// An error object from the remote node's reply envelope.
#[derive(Debug, Clone)]
pub struct JsonRpcError {
    pub code: i32,
    pub message: String,
}

/// A reply envelope: exactly one of `result` and `error` is expected to be
/// present; `id` echoes the request id as a decimal string.
#[derive(Debug)]
pub struct JsonRpcResponse<T> {
    pub result: Option<T>,
    pub error: Option<JsonRpcError>,
    pub id: String,
}

/// What the HTTP layer reports when a request fails before any reply
/// envelope is read: the failure kind and the status line, held as plain
/// values.
#[derive(Debug, Clone, Copy, PartialEq, Eq, Structural)]
pub struct TransportError {
    pub timeout: bool,
    pub connect: bool,
    pub status: Option<u16>,
}

/// A failed RPC interaction: an error object from the node, a transport
/// failure, or a malformed reply described in text.
#[derive(Debug, Clone)]
pub enum BitcoinRpcError {
    Rpc(JsonRpcError),
    Transport(TransportError),
    Other(String),
}

/// An error is temporary iff it is a transport timeout or connect failure,
/// an HTTP status of 408, 429, 500, 502, 503 or 504, or an RPC code that
/// says the node is warming up (-28), in initial download (-10) or not
/// connected (-9).
pub open spec fn is_temporary_spec(e: BitcoinRpcError) -> bool {
    match e {
        BitcoinRpcError::Transport(t) => t.timeout || t.connect || (match t.status {
            Some(s) => s == 408 || s == 429 || s == 500 || s == 502 || s == 503 || s == 504,
            None => false,
        }),
        BitcoinRpcError::Rpc(j) => j.code == BITCOIN_RPC_IN_WARMUP || j.code
            == BITCOIN_RPC_CLIENT_IN_INITIAL_DOWNLOAD || j.code
            == BITCOIN_RPC_CLIENT_NOT_CONNECTED,
        BitcoinRpcError::Other(_) => false,
    }
}

impl BitcoinRpcError {
    pub fn is_temporary(&self) -> (r: bool)
        ensures
            r == is_temporary_spec(*self),
    {
        match self {
            BitcoinRpcError::Transport(t) => {
                if t.timeout || t.connect {
                    return true;
                }
                match t.status {
                    Some(s) => s == 408 || s == 429 || s == 500 || s == 502 || s == 503 || s
                        == 504,
                    None => false,
                }
            },
            BitcoinRpcError::Rpc(j) => j.code == BITCOIN_RPC_IN_WARMUP || j.code
                == BITCOIN_RPC_CLIENT_IN_INITIAL_DOWNLOAD || j.code
                == BITCOIN_RPC_CLIENT_NOT_CONNECTED,
            BitcoinRpcError::Other(_) => false,
        }
    }
}

/// Milliseconds slept before retrying after the failure of attempt
/// `attempt`: 20 ms doubled each attempt.
pub open spec fn retry_delay_ms(attempt: nat) -> nat
    decreases attempt,
{
    if attempt == 0 {
        20
    } else {
        2 * retry_delay_ms((attempt - 1) as nat)
    }
}

/// A send is given up to `RETRY_ATTEMPTS` attempts in a row.
pub const RETRY_ATTEMPTS: usize = 5;

/// After the failure of attempt `attempt` (counted from zero): retry after
/// `Some(delay)` milliseconds iff the error is temporary and attempts
/// remain; `None` means the error is surfaced now.
pub fn retry_backoff(attempt: usize, error_is_temporary: bool) -> (r: Option<u64>)
    ensures
        (error_is_temporary && attempt < RETRY_ATTEMPTS - 1) <==> r is Some,
        r matches Some(d) ==> d == retry_delay_ms(attempt as nat),
{
    if !(error_is_temporary && attempt < RETRY_ATTEMPTS - 1) {
        return None;
    }
    let mut d: u64 = 20;
    let mut j: usize = 0;
    while j < attempt
        invariant
            attempt < RETRY_ATTEMPTS - 1,
            0 <= j <= attempt,
            d == retry_delay_ms(j as nat),
        decreases attempt - j,
    {
        proof {
            lemma_retry_delay_values();
        }
        d = 2 * d;
        j += 1;
    }
    Some(d)
}

/// The result the retry schedule settles on, starting at `attempt`, when
/// the transport would produce `outcomes[k]` on attempt `k`: the first
/// success or non-temporary error is surfaced; a temporary error is retried
/// while attempts remain, and the last temporary error is surfaced once
/// they run out.
pub open spec fn retry_result<T>(
    outcomes: Seq<Result<T, BitcoinRpcError>>,
    attempt: int,
) -> Result<T, BitcoinRpcError>
    recommends
        0 <= attempt < RETRY_ATTEMPTS <= outcomes.len(),
    decreases RETRY_ATTEMPTS - attempt,
{
    match outcomes[attempt] {
        Ok(v) => outcomes[attempt],
        Err(e) => {
            if is_temporary_spec(e) && attempt < RETRY_ATTEMPTS - 1 {
                retry_result(outcomes, attempt + 1)
            } else {
                outcomes[attempt]
            }
        },
    }
}

/// How many retries the schedule performs, starting at `attempt`.
pub open spec fn retry_count<T>(outcomes: Seq<Result<T, BitcoinRpcError>>, attempt: int) -> int
    recommends
        0 <= attempt < RETRY_ATTEMPTS <= outcomes.len(),
    decreases RETRY_ATTEMPTS - attempt,
{
    match outcomes[attempt] {
        Ok(v) => 0,
        Err(e) => {
            if is_temporary_spec(e) && attempt < RETRY_ATTEMPTS - 1 {
                1 + retry_count(outcomes, attempt + 1)
            } else {
                0
            }
        },
    }
}

/// Total milliseconds the schedule sleeps, starting at `attempt`.
pub open spec fn retry_sleep_ms<T>(outcomes: Seq<Result<T, BitcoinRpcError>>, attempt: int) -> int
    recommends
        0 <= attempt < RETRY_ATTEMPTS <= outcomes.len(),
    decreases RETRY_ATTEMPTS - attempt,
{
    match outcomes[attempt] {
        Ok(v) => 0,
        Err(e) => {
            if is_temporary_spec(e) && attempt < RETRY_ATTEMPTS - 1 {
                retry_delay_ms(attempt as nat) + retry_sleep_ms(outcomes, attempt + 1)
            } else {
                0
            }
        },
    }
}

/// What a run of the retry schedule reports: the settled result, how many
/// retries were made, and how long was slept between attempts in all.
#[derive(Debug)]
pub struct RetryOutcome<T> {
    pub result: Result<T, BitcoinRpcError>,
    pub retries: usize,
    pub slept_ms: u64,
}

/// Applies the retry schedule to the outcomes the transport produces, one
/// per attempt, front to back. The caller performs the sleeps; this
/// function accounts for them.
pub fn send_with_retry<T>(outcomes: &mut Vec<Result<T, BitcoinRpcError>>) -> (r: RetryOutcome<T>)
    requires
        old(outcomes)@.len() == RETRY_ATTEMPTS,
    ensures
        r.result == retry_result(old(outcomes)@, 0),
        r.retries as int == retry_count(old(outcomes)@, 0),
        r.slept_ms as int == retry_sleep_ms(old(outcomes)@, 0),
{
    let mut attempt: usize = 0;
    let mut slept: u64 = 0;
    while attempt < RETRY_ATTEMPTS
        invariant
            old(outcomes)@.len() == RETRY_ATTEMPTS,
            0 <= attempt < RETRY_ATTEMPTS,
            outcomes@ == old(outcomes)@.skip(attempt as int),
            retry_result(old(outcomes)@, 0) == retry_result(old(outcomes)@, attempt as int),
            retry_count(old(outcomes)@, 0) == attempt + retry_count(old(outcomes)@, attempt as int),
            retry_sleep_ms(old(outcomes)@, 0) == slept + retry_sleep_ms(old(outcomes)@, attempt as int),
            slept == total_sleep_upto(attempt as nat),
        decreases RETRY_ATTEMPTS - attempt,
    {
        let cur = outcomes.remove(0);
        proof {
            assert(outcomes@ =~= old(outcomes)@.skip(attempt as int + 1));
            assert(cur == old(outcomes)@[attempt as int]);
        }
        match cur {
            Ok(v) => {
                return RetryOutcome { result: Ok(v), retries: attempt, slept_ms: slept };
            },
            Err(e) => {
                match retry_backoff(attempt, e.is_temporary()) {
                    Some(d) => {
                        proof {
                            lemma_retry_delay_values();
                            lemma_total_sleep_values();
                        }
                        slept = slept + d;
                        attempt += 1;
                    },
                    None => {
                        return RetryOutcome { result: Err(e), retries: attempt, slept_ms: slept };
                    },
                }
            },
        }
    }
    proof {
        assert(false);
    }
    RetryOutcome { result: Err(BitcoinRpcError::Other(String::new())), retries: attempt, slept_ms: slept }
}

/// Milliseconds slept in all once `k` retries have been granted.
pub open spec fn total_sleep_upto(k: nat) -> nat
    decreases k,
{
    if k == 0 {
        0
    } else {
        total_sleep_upto((k - 1) as nat) + retry_delay_ms((k - 1) as nat)
    }
}

proof fn lemma_retry_delay_values()
    ensures
        retry_delay_ms(0) == 20,
        retry_delay_ms(1) == 40,
        retry_delay_ms(2) == 80,
        retry_delay_ms(3) == 160,
        retry_delay_ms(4) == 320,
{
    assert(retry_delay_ms(0) == 20);
    assert(retry_delay_ms(1) == 40);
    assert(retry_delay_ms(2) == 80);
    assert(retry_delay_ms(3) == 160);
    assert(retry_delay_ms(4) == 320);
}

proof fn lemma_total_sleep_values()
    ensures
        total_sleep_upto(0) == 0,
        total_sleep_upto(1) == 20,
        total_sleep_upto(2) == 60,
        total_sleep_upto(3) == 140,
        total_sleep_upto(4) == 300,
{
    lemma_retry_delay_values();
    assert(total_sleep_upto(0) == 0);
    assert(total_sleep_upto(1) == 20);
    assert(total_sleep_upto(2) == 60);
    assert(total_sleep_upto(3) == 140);
    assert(total_sleep_upto(4) == 300);
}

/// Up to `k` temporary errors followed by a success: the schedule returns
/// that success, after `k` retries.
pub proof fn lemma_retry_returns_success<T>(outcomes: Seq<Result<T, BitcoinRpcError>>, k: int)
    requires
        outcomes.len() == RETRY_ATTEMPTS,
        0 <= k < RETRY_ATTEMPTS,
        forall|i: int|
            0 <= i < k ==> ((#[trigger] outcomes[i]) matches Err(e) && is_temporary_spec(e)),
        outcomes[k] is Ok,
    ensures
        retry_result(outcomes, 0) == outcomes[k],
        retry_count(outcomes, 0) == k,
{
    lemma_retry_reaches(outcomes, 0, k);
}

proof fn lemma_retry_reaches<T>(outcomes: Seq<Result<T, BitcoinRpcError>>, j: int, k: int)
    requires
        outcomes.len() == RETRY_ATTEMPTS,
        0 <= j <= k < RETRY_ATTEMPTS,
        forall|i: int|
            j <= i < k ==> ((#[trigger] outcomes[i]) matches Err(e) && is_temporary_spec(e)),
        outcomes[k] is Ok,
    ensures
        retry_result(outcomes, j) == outcomes[k],
        retry_count(outcomes, j) == k - j,
    decreases k - j,
{
    if j < k {
        lemma_retry_reaches(outcomes, j + 1, k);
    }
}

/// Five temporary errors in a row: the schedule surfaces the last of them,
/// after four retries.
pub proof fn lemma_retry_exhausts<T>(outcomes: Seq<Result<T, BitcoinRpcError>>)
    requires
        outcomes.len() == RETRY_ATTEMPTS,
        forall|i: int|
            0 <= i < RETRY_ATTEMPTS ==> ((#[trigger] outcomes[i]) matches Err(e) && is_temporary_spec(e)),
    ensures
        retry_result(outcomes, 0) == outcomes[RETRY_ATTEMPTS - 1],
        retry_count(outcomes, 0) == RETRY_ATTEMPTS - 1,
{
    lemma_retry_exhausts_from(outcomes, 0);
}

proof fn lemma_retry_exhausts_from<T>(outcomes: Seq<Result<T, BitcoinRpcError>>, j: int)
    requires
        outcomes.len() == RETRY_ATTEMPTS,
        0 <= j < RETRY_ATTEMPTS,
        forall|i: int|
            0 <= i < RETRY_ATTEMPTS ==> ((#[trigger] outcomes[i]) matches Err(e) && is_temporary_spec(e)),
    ensures
        retry_result(outcomes, j) == outcomes[RETRY_ATTEMPTS - 1],
        retry_count(outcomes, j) == RETRY_ATTEMPTS - 1 - j,
    decreases RETRY_ATTEMPTS - j,
{
    if j < RETRY_ATTEMPTS - 1 {
        lemma_retry_exhausts_from(outcomes, j + 1);
    }
}

/// A non-temporary error aborts the schedule at once: if the first `k`
/// outcomes are temporary errors and outcome `k` is a non-temporary error,
/// that error is surfaced.
pub proof fn lemma_retry_aborts_on_fatal<T>(outcomes: Seq<Result<T, BitcoinRpcError>>, k: int)
    requires
        outcomes.len() == RETRY_ATTEMPTS,
        0 <= k < RETRY_ATTEMPTS,
        forall|i: int|
            0 <= i < k ==> ((#[trigger] outcomes[i]) matches Err(e) && is_temporary_spec(e)),
        outcomes[k] matches Err(e) && !is_temporary_spec(e),
    ensures
        retry_result(outcomes, 0) == outcomes[k],
        retry_count(outcomes, 0) == k,
{
    lemma_retry_aborts_from(outcomes, 0, k);
}

proof fn lemma_retry_aborts_from<T>(outcomes: Seq<Result<T, BitcoinRpcError>>, j: int, k: int)
    requires
        outcomes.len() == RETRY_ATTEMPTS,
        0 <= j <= k < RETRY_ATTEMPTS,
        forall|i: int|
            j <= i < k ==> ((#[trigger] outcomes[i]) matches Err(e) && is_temporary_spec(e)),
        outcomes[k] matches Err(e) && !is_temporary_spec(e),
    ensures
        retry_result(outcomes, j) == outcomes[k],
        retry_count(outcomes, j) == k - j,
    decreases k - j,
{
    if j < k {
        lemma_retry_aborts_from(outcomes, j + 1, k);
    }
}

/// How many mempool polls follow a broadcast before giving up.
pub const MEMPOOL_POLL_ATTEMPTS: usize = 10;

/// The first `time` value a sequence of mempool polls yields: `polls[i]` is
/// the interpreted reply of poll `i` — `Ok(Some(t))` when the entry carries
/// a numeric `time`, `Ok(None)` when an entry exists without one, `Err` on
/// a failed poll.
pub open spec fn first_entry_time(
    polls: Seq<Result<Option<u64>, BitcoinRpcError>>,
    i: int,
) -> Option<u64>
    decreases polls.len() - i,
{
    if i < 0 || i >= polls.len() {
        None
    } else {
        match polls[i] {
            Ok(Some(t)) => Some(t),
            _ => first_entry_time(polls, i + 1),
        }
    }
}

/// The last error among `polls[..m]`, if any.
pub open spec fn last_poll_error(
    polls: Seq<Result<Option<u64>, BitcoinRpcError>>,
    m: int,
) -> Option<BitcoinRpcError>
    decreases m,
{
    if m <= 0 {
        None
    } else {
        match polls[m - 1] {
            Err(e) => Some(e),
            _ => last_poll_error(polls, m - 1),
        }
    }
}

/// Resolves a broadcast's mempool watch from the polls' outcomes: the first
/// entry that carries a `time` wins and its time is the `last_seen` value;
/// with no such entry within budget, the last poll error is surfaced. A run
/// in which every poll finds an entry without a time and none fails has no
/// error to surface and is left out.
pub fn mempool_poll_result(polls: &mut Vec<Result<Option<u64>, BitcoinRpcError>>) -> (r: Result<
    u64,
    BitcoinRpcError,
>)
    requires
        old(polls)@.len() == MEMPOOL_POLL_ATTEMPTS,
        first_entry_time(old(polls)@, 0) is Some || last_poll_error(
            old(polls)@,
            MEMPOOL_POLL_ATTEMPTS as int,
        ) is Some,
    ensures
        match first_entry_time(old(polls)@, 0) {
            Some(t) => r == Ok::<u64, BitcoinRpcError>(t),
            None => r == Err::<u64, BitcoinRpcError>(
                last_poll_error(old(polls)@, MEMPOOL_POLL_ATTEMPTS as int).unwrap(),
            ),
        },
{
    let mut retry_count: usize = 0;
    let mut last_error: Option<BitcoinRpcError> = None;
    while retry_count < MEMPOOL_POLL_ATTEMPTS
        invariant
            old(polls)@.len() == MEMPOOL_POLL_ATTEMPTS,
            0 <= retry_count <= MEMPOOL_POLL_ATTEMPTS,
            polls@ == old(polls)@.skip(retry_count as int),
            first_entry_time(old(polls)@, 0) == first_entry_time(old(polls)@, retry_count as int),
            last_error == last_poll_error(old(polls)@, retry_count as int),
        decreases MEMPOOL_POLL_ATTEMPTS - retry_count,
    {
        let cur = polls.remove(0);
        proof {
            assert(polls@ =~= old(polls)@.skip(retry_count as int + 1));
            assert(cur == old(polls)@[retry_count as int]);
        }
        match cur {
            Ok(entry_time) => {
                if let Some(t) = entry_time {
                    proof {
                        assert(old(polls)@[retry_count as int] == Ok::<Option<u64>, BitcoinRpcError>(
                            Some(t),
                        ));
                        assert(first_entry_time(old(polls)@, retry_count as int) == Some(t));
                        assert(first_entry_time(old(polls)@, 0) == Some(t));
                    }
                    return Ok(t);
                }
            },
            Err(e) => {
                last_error = Some(e);
            },
        }
        retry_count += 1;
    }
    match last_error {
        Some(e) => Err(e),
        None => {
            proof {
                assert(false);
            }
            Err(BitcoinRpcError::Other(String::new()))
        },
    }
}


/// A parameter of a JSON-RPC request: a non-negative number or a piece of
/// text. Text is carried as bytes and is quoted verbatim; the library's own
/// callers only pass hex spellings, decimal digits and fixed words, which
/// need no escaping.
#[derive(Debug)]
pub enum RpcParam {
    Num(u64),
    Text(Vec<u8>),
}

/// The mathematical shape of a parameter: a number or a byte sequence.
pub enum RpcParamView {
    Num(u64),
    Text(Seq<u8>),
}

impl View for RpcParam {
    type V = RpcParamView;

    open spec fn view(&self) -> RpcParamView {
        match self {
            RpcParam::Num(n) => RpcParamView::Num(*n),
            RpcParam::Text(t) => RpcParamView::Text(t@),
        }
    }
}

/// The views of a parameter list.
pub open spec fn params_view(ps: Seq<RpcParam>) -> Seq<RpcParamView> {
    ps.map_values(|p: RpcParam| p@)
}

/// The JSON spelling of one parameter.
pub open spec fn param_json(p: RpcParamView) -> Seq<u8> {
    match p {
        RpcParamView::Num(n) => dec_digits(n as nat),
        RpcParamView::Text(t) => seq![34u8] + t + seq![34u8],
    }
}

/// The JSON spelling of a parameter list, comma separated, no brackets.
pub open spec fn params_json(ps: Seq<RpcParamView>) -> Seq<u8>
    decreases ps.len(),
{
    if ps.len() == 0 {
        Seq::empty()
    } else if ps.len() == 1 {
        param_json(ps[0])
    } else {
        param_json(ps[0]) + seq![44u8] + params_json(ps.drop_first())
    }
}

proof fn lemma_params_json_push(ps: Seq<RpcParamView>, p: RpcParamView)
    ensures
        ps.len() == 0 ==> params_json(ps.push(p)) == param_json(p),
        ps.len() > 0 ==> params_json(ps.push(p)) == params_json(ps) + seq![44u8] + param_json(p),
    decreases ps.len(),
{
    if ps.len() == 0 {
        assert(ps.push(p)[0] == p);
        assert(params_json(ps.push(p)) == param_json(p));
    } else {
        assert(ps.push(p).drop_first() =~= ps.drop_first().push(p));
        lemma_params_json_push(ps.drop_first(), p);
        if ps.len() == 1 {
            assert(ps.drop_first().len() == 0);
            assert(params_json(ps.push(p)) == param_json(ps[0]) + seq![44u8] + param_json(p));
            assert(params_json(ps) == param_json(ps[0]));
        } else {
            assert(params_json(ps.push(p)) == param_json(ps[0]) + seq![44u8] + (params_json(
                ps.drop_first(),
            ) + seq![44u8] + param_json(p)));
            assert(param_json(ps[0]) + seq![44u8] + (params_json(ps.drop_first()) + seq![44u8]
                + param_json(p)) =~= (param_json(ps[0]) + seq![44u8] + params_json(
                ps.drop_first(),
            )) + seq![44u8] + param_json(p));
        }
    }
}

/// Appends the bytes of `src` to `out`.
fn append_bytes(out: &mut Vec<u8>, src: &Vec<u8>)
    ensures
        final(out)@ == old(out)@ + src@,
{
    let mut i: usize = 0;
    while i < src.len()
        invariant
            0 <= i <= src@.len(),
            out@ == old(out)@ + src@.take(i as int),
        decreases src@.len() - i,
    {
        out.push(src[i]);
        proof {
            assert(old(out)@ + src@.take(i as int) + seq![src@[i as int]] =~= old(out)@
                + src@.take(i as int + 1));
        }
        i += 1;
    }
    proof {
        assert(old(out)@ + src@.take(src@.len() as int) =~= old(out)@ + src@);
    }
}

/// Appends the UTF-8 bytes of `s` to `out`.
fn append_text(out: &mut Vec<u8>, s: &str)
    ensures
        final(out)@ == old(out)@ + s.spec_bytes(),
{
    let v = s.as_bytes_vec();
    append_bytes(out, &v);
}

/// The request envelope sent to the node: `{"jsonrpc":"2.0","id":"<id>",
/// "method":"<method>","params":[<params>]}`, with the id spelled in
/// decimal.
pub open spec fn body_json(id: u64, method: Seq<u8>, params: Seq<RpcParamView>) -> Seq<u8> {
    ("{\"jsonrpc\":\"2.0\",\"id\":\"").spec_bytes() + dec_digits(id as nat) + (
    "\",\"method\":\"").spec_bytes() + method + ("\",\"params\":[").spec_bytes() + params_json(params)
        + ("]}").spec_bytes()
}

/// A prepared request: the id it was assigned and the serialized envelope.
#[derive(Debug)]
pub struct BitcoinRpcRequest {
    pub id: u64,
    pub body: Vec<u8>,
}

/// How the client authenticates against the node: username and password
/// (sent HTTP-Basic encoded), a preformed cookie token, or nothing.
#[derive(Debug)]
pub enum BitcoinRpcAuth {
    UserPass(String, String),
    Cookie(String),
    NoAuth,
}

pub uninterp spec fn base64_of(bytes: Seq<u8>) -> Seq<char>;

/// Relies on base64's `BASE64_STANDARD` engine (`Engine::encode`): standard
/// alphabet with padding, so the output holds four characters for every
/// three input bytes, rounded up; the result depends on the bytes alone.
/// The encoder aborts when the output length cannot be computed in a
/// machine word; the precondition keeps such inputs out.
#[verifier::external_body]
fn base64_encode(bytes: &Vec<u8>) -> (r: String)
    requires
        bytes@.len() <= 0x1000_0000_0000_0000,
    ensures
        r@ == base64_of(bytes@),
        r@.len() == 4 * ((bytes@.len() + 2) / 3),
{
    base64::Engine::encode(&base64::prelude::BASE64_STANDARD, bytes.as_slice())
}

/// The token `new` stores for an auth mode: `base64(user:pass)` for
/// user/password auth, the cookie itself for cookie auth, nothing otherwise.
pub open spec fn auth_token_spec(auth: BitcoinRpcAuth) -> Option<Seq<char>> {
    match auth {
        BitcoinRpcAuth::UserPass(u, p) => Some(
            base64_of(
                vstd::utf8::encode_utf8(u@) + seq![58u8] + vstd::utf8::encode_utf8(p@),
            ),
        ),
        BitcoinRpcAuth::Cookie(c) => Some(c@),
        BitcoinRpcAuth::NoAuth => None,
    }
}

/// Bound under which credentials can always be encoded: far beyond any
/// real token, within what the encoder's buffer arithmetic can hold.
pub const MAX_CREDENTIAL_BYTES: u64 = 0x1000_0000_0000_0000;

/// Whether an auth mode's credentials stay encodable.
pub open spec fn auth_encodable(auth: BitcoinRpcAuth) -> bool {
    match auth {
        BitcoinRpcAuth::UserPass(u, p) => vstd::utf8::encode_utf8(u@).len()
            + vstd::utf8::encode_utf8(p@).len() + 1 <= MAX_CREDENTIAL_BYTES,
        _ => true,
    }
}

impl BitcoinRpcAuth {
    fn to_token(self) -> (r: Option<String>)
        requires
            auth_encodable(self),
        ensures
            match auth_token_spec(self) {
                Some(t) => r matches Some(s) && s@ == t,
                None => r is None,
            },
    {
        match self {
            BitcoinRpcAuth::UserPass(user, pass) => {
                let mut plain: Vec<u8> = Vec::new();
                append_text(&mut plain, user.as_str());
                plain.push(58);
                append_text(&mut plain, pass.as_str());
                proof {
                    assert(plain@ =~= vstd::utf8::encode_utf8(user@) + seq![58u8]
                        + vstd::utf8::encode_utf8(pass@));
                }
                Some(base64_encode(&plain))
            },
            BitcoinRpcAuth::Cookie(cookie) => Some(cookie),
            BitcoinRpcAuth::NoAuth => None,
        }
    }
}

/// The JSON-RPC client: a monotonically increasing request id, the resolved
/// auth token, and the node's URL. The id counter wraps at the numeric
/// limit.
#[derive(Debug)]
pub struct BitcoinRpc {
    pub next_id: u64,
    pub auth_token: Option<String>,
    pub url: String,
}

impl BitcoinRpc {
    pub fn new(url: &str, auth: BitcoinRpcAuth) -> (r: BitcoinRpc)
        requires
            auth_encodable(auth),
        ensures
            r.next_id == 0,
            r.url@ == url@,
            match auth_token_spec(auth) {
                Some(t) => r.auth_token matches Some(s) && s@ == t,
                None => r.auth_token is None,
            },
    {
        BitcoinRpc { next_id: 0, auth_token: auth.to_token(), url: url.to_owned() }
    }

    /// Assigns the next id and serializes the envelope for `method` with
    /// `params`.
    pub fn make_request(&mut self, method: &str, params: Vec<RpcParam>) -> (r: BitcoinRpcRequest)
        ensures
            r.id == old(self).next_id,
            final(self).next_id == (if old(self).next_id == u64::MAX {
                0u64
            } else {
                (old(self).next_id + 1) as u64
            }),
            final(self).auth_token == old(self).auth_token,
            final(self).url == old(self).url,
            r.body@ == body_json(r.id, method.spec_bytes(), params_view(params@)),
    {
        let id = self.next_id;
        if self.next_id == u64::MAX {
            self.next_id = 0;
        } else {
            self.next_id = self.next_id + 1;
        }
        let mut body: Vec<u8> = Vec::new();
        append_text(&mut body, "{\"jsonrpc\":\"2.0\",\"id\":\"");
        let mut id_dec = crate::encoding::u64_to_dec(id);
        body.append(&mut id_dec);
        append_text(&mut body, "\",\"method\":\"");
        append_text(&mut body, method);
        append_text(&mut body, "\",\"params\":[");
        let mut i: usize = 0;
        while i < params.len()
            invariant
                0 <= i <= params@.len(),
                body@ == ("{\"jsonrpc\":\"2.0\",\"id\":\"").spec_bytes() + dec_digits(id as nat) + (
                "\",\"method\":\"").spec_bytes() + method.spec_bytes() + (
                "\",\"params\":[").spec_bytes() + params_json(params_view(params@).take(i as int)),
            decreases params@.len() - i,
        {
            let ghost done = params_view(params@).take(i as int);
            if i > 0 {
                body.push(44);
            }
            match &params[i] {
                RpcParam::Num(n) => {
                    let mut d = crate::encoding::u64_to_dec(*n);
                    body.append(&mut d);
                },
                RpcParam::Text(t) => {
                    body.push(34);
                    append_bytes(&mut body, t);
                    body.push(34);
                },
            }
            proof {
                lemma_params_json_push(done, params@[i as int]@);
                assert(params_view(params@).take(i as int + 1) =~= done.push(params@[i as int]@));
                if i == 0 {
                    assert(params_json(params_view(params@).take(1)) == param_json(
                        params@[0]@,
                    ));
                }
                assert(body@ =~= ("{\"jsonrpc\":\"2.0\",\"id\":\"").spec_bytes() + dec_digits(
                    id as nat,
                ) + ("\",\"method\":\"").spec_bytes() + method.spec_bytes() + (
                "\",\"params\":[").spec_bytes() + params_json(params_view(params@).take(
                    i as int + 1,
                )));
            }
            i += 1;
        }
        append_text(&mut body, "]}");
        proof {
            assert(params_view(params@).take(params@.len() as int) =~= params_view(params@));
            assert(body@ =~= body_json(id, method.spec_bytes(), params_view(params@)));
        }
        BitcoinRpcRequest { id, body }
    }

    /// Prepares `getblockcount`, which takes no parameters.
    pub fn get_block_count(&mut self) -> (r: BitcoinRpcRequest)
        ensures
            r.id == old(self).next_id,
            final(self).next_id == (if old(self).next_id == u64::MAX {
                0u64
            } else {
                (old(self).next_id + 1) as u64
            }),
            final(self).auth_token == old(self).auth_token,
            final(self).url == old(self).url,
            r.body@ == body_json(r.id, ("getblockcount").spec_bytes(), Seq::empty()),
    {
        let params: Vec<RpcParam> = Vec::new();
        self.make_request("getblockcount", params)
    }

    /// Prepares `getblockhash` for a height.
    pub fn get_block_hash(&mut self, height: u32) -> (r: BitcoinRpcRequest)
        ensures
            r.id == old(self).next_id,
            final(self).next_id == (if old(self).next_id == u64::MAX {
                0u64
            } else {
                (old(self).next_id + 1) as u64
            }),
            final(self).auth_token == old(self).auth_token,
            final(self).url == old(self).url,
            r.body@ == body_json(
                r.id,
                ("getblockhash").spec_bytes(),
                seq![RpcParamView::Num(height as u64)],
            ),
    {
        let mut params: Vec<RpcParam> = Vec::new();
        params.push(RpcParam::Num(height as u64));
        proof {
            assert(params_view(params@) =~= seq![RpcParamView::Num(height as u64)]);
        }
        self.make_request("getblockhash", params)
    }

    /// Prepares `getblock` at verbosity 0: the hash is spelled in display
    /// order (the reverse of its internal byte order), the reply is the raw
    /// block in hex.
    pub fn get_block(&mut self, hash: &ChainHash) -> (r: BitcoinRpcRequest)
        requires
            hash.wf(),
        ensures
            r.id == old(self).next_id,
            final(self).next_id == (if old(self).next_id == u64::MAX {
                0u64
            } else {
                (old(self).next_id + 1) as u64
            }),
            final(self).auth_token == old(self).auth_token,
            final(self).url == old(self).url,
            r.body@ == body_json(
                r.id,
                ("getblock").spec_bytes(),
                seq![RpcParamView::Text(hex_of(hash.bytes@.reverse())), RpcParamView::Num(0)],
            ),
    {
        let rev = hash.reversed_bytes();
        let hx = bytes_to_hex(&rev);
        let ghost hx_view = hx@;
        let mut params: Vec<RpcParam> = Vec::new();
        params.push(RpcParam::Text(hx));
        params.push(RpcParam::Num(0));
        proof {
            assert(params_view(params@) =~= seq![RpcParamView::Text(hex_of(hash.bytes@.reverse())), RpcParamView::Num(0)]) by {
                assert(params@[0]@ == RpcParamView::Text(hx_view));
                assert(hx_view == hex_of(hash.bytes@.reverse()));
            }
        }
        self.make_request("getblock", params)
    }

    /// Prepares `getblockchaininfo`, which takes no parameters.
    pub fn get_blockchain_info(&mut self) -> (r: BitcoinRpcRequest)
        ensures
            r.id == old(self).next_id,
            final(self).next_id == (if old(self).next_id == u64::MAX {
                0u64
            } else {
                (old(self).next_id + 1) as u64
            }),
            final(self).auth_token == old(self).auth_token,
            final(self).url == old(self).url,
            r.body@ == body_json(r.id, ("getblockchaininfo").spec_bytes(), Seq::empty()),
    {
        let params: Vec<RpcParam> = Vec::new();
        self.make_request("getblockchaininfo", params)
    }

    /// Prepares `getmempoolentry` for a txid given in display hex.
    pub fn get_mempool_entry(&mut self, txid: &str) -> (r: BitcoinRpcRequest)
        ensures
            r.id == old(self).next_id,
            final(self).next_id == (if old(self).next_id == u64::MAX {
                0u64
            } else {
                (old(self).next_id + 1) as u64
            }),
            final(self).auth_token == old(self).auth_token,
            final(self).url == old(self).url,
            r.body@ == body_json(
                r.id,
                ("getmempoolentry").spec_bytes(),
                seq![RpcParamView::Text(txid.spec_bytes())],
            ),
    {
        let tb = txid.as_bytes_vec();
        let ghost tb_view = tb@;
        let mut params: Vec<RpcParam> = Vec::new();
        params.push(RpcParam::Text(tb));
        proof {
            assert(params_view(params@) =~= seq![RpcParamView::Text(txid.spec_bytes())]) by {
                assert(params@[0]@ == RpcParamView::Text(tb_view));
                assert(tb_view == txid.spec_bytes());
            }
        }
        self.make_request("getmempoolentry", params)
    }

    /// Prepares `sendrawtransaction` for a serialized transaction: the raw
    /// bytes are spelled in hex; the maximum fee rate check is disabled (0)
    /// and the burn cap is 21,000,000.
    pub fn send_raw_transaction(&mut self, tx: &Vec<u8>) -> (r: BitcoinRpcRequest)
        requires
            tx@.len() * 2 <= usize::MAX,
        ensures
            r.id == old(self).next_id,
            final(self).next_id == (if old(self).next_id == u64::MAX {
                0u64
            } else {
                (old(self).next_id + 1) as u64
            }),
            final(self).auth_token == old(self).auth_token,
            final(self).url == old(self).url,
            r.body@ == body_json(
                r.id,
                ("sendrawtransaction").spec_bytes(),
                seq![
                    RpcParamView::Text(hex_of(tx@)),
                    RpcParamView::Num(0),
                    RpcParamView::Num(21000000),
                ],
            ),
    {
        let hx = bytes_to_hex(tx);
        let ghost hx_view = hx@;
        let mut params: Vec<RpcParam> = Vec::new();
        params.push(RpcParam::Text(hx));
        params.push(RpcParam::Num(0));
        params.push(RpcParam::Num(21000000));
        proof {
            assert(params_view(params@) =~= seq![
                RpcParamView::Text(hex_of(tx@)),
                RpcParamView::Num(0),
                RpcParamView::Num(21000000),
            ]) by {
                assert(params@[0]@ == RpcParamView::Text(hx_view));
                assert(hx_view == hex_of(tx@));
            }
        }
        self.make_request("sendrawtransaction", params)
    }

    /// Prepares `estimatesmartfee` with a confirmation target of 6 blocks
    /// and the "unset" estimate mode.
    pub fn estimate_smart_fee(&mut self) -> (r: BitcoinRpcRequest)
        ensures
            r.id == old(self).next_id,
            final(self).next_id == (if old(self).next_id == u64::MAX {
                0u64
            } else {
                (old(self).next_id + 1) as u64
            }),
            final(self).auth_token == old(self).auth_token,
            final(self).url == old(self).url,
            r.body@ == body_json(
                r.id,
                ("estimatesmartfee").spec_bytes(),
                seq![RpcParamView::Num(6), RpcParamView::Text(("unset").spec_bytes())],
            ),
    {
        let mode = ("unset").as_bytes_vec();
        let ghost mode_view = mode@;
        let mut params: Vec<RpcParam> = Vec::new();
        params.push(RpcParam::Num(6));
        params.push(RpcParam::Text(mode));
        proof {
            assert(params_view(params@) =~= seq![RpcParamView::Num(6), RpcParamView::Text(("unset").spec_bytes())]) by {
                assert(params@[1]@ == RpcParamView::Text(mode_view));
                assert(mode_view == ("unset").spec_bytes());
            }
        }
        self.make_request("estimatesmartfee", params)
    }
}


/// Reads the median time out of a `getblockchaininfo` reply: the chain
/// info must carry a numeric `mediantime`, else the locktime basis cannot
/// be fetched.
pub fn median_time_result(mediantime: Option<u64>) -> (r: Result<u64, BitcoinRpcError>)
    ensures
        match mediantime {
            Some(t) => r == Ok::<u64, BitcoinRpcError>(t),
            None => r matches Err(e) && e matches BitcoinRpcError::Other(m) && m@ == (
            "Could not fetch median time")@,
        },
{
    match mediantime {
        Some(t) => Ok(t),
        None => Err(BitcoinRpcError::Other("Could not fetch median time".to_owned())),
    }
}

/// Combines a broadcast's submit outcome with its mempool polls: a failed
/// submit is surfaced at once; a submitted transaction is unconfirmed,
/// last seen at the first polled entry time, or the last poll error when
/// no entry showed a time within budget.
pub fn broadcast_tx_result(
    submit: Result<String, BitcoinRpcError>,
    polls: &mut Vec<Result<Option<u64>, BitcoinRpcError>>,
) -> (r: Result<(String, u64), BitcoinRpcError>)
    requires
        submit is Ok ==> old(polls)@.len() == MEMPOOL_POLL_ATTEMPTS && (first_entry_time(
            old(polls)@,
            0,
        ) is Some || last_poll_error(old(polls)@, MEMPOOL_POLL_ATTEMPTS as int) is Some),
    ensures
        match submit {
            Err(e) => r == Err::<(String, u64), BitcoinRpcError>(e),
            Ok(txid) => match first_entry_time(old(polls)@, 0) {
                Some(t) => r matches Ok(p) && p.0 == txid && p.1 == t,
                None => r == Err::<(String, u64), BitcoinRpcError>(
                    last_poll_error(old(polls)@, MEMPOOL_POLL_ATTEMPTS as int).unwrap(),
                ),
            },
        },
{
    match submit {
        Err(e) => Err(e),
        Ok(txid) => match mempool_poll_result(polls) {
            Ok(t) => Ok((txid, t)),
            Err(e) => Err(e),
        },
    }
}

} // verus!
