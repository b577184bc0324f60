//! Fee heuristics: reading the competing fee rate out of a mempool
//! replacement rejection, and converting a BTC-per-kvB decimal into
//! sat-per-vB.
//!
//! All rates are held in satoshis per virtual byte. A rate is accepted only
//! while it stays representable as a rate in satoshis per kilo-weight-unit
//! (250 per sat/vB) in 64 bits, as the wallet's rate type stores it.

use vstd::prelude::*;

use crate::encoding::copy_range;

verus! {

use vstd::string::StringSliceAdditionalSpecFns;

/// The largest sat/vB value whose kilo-weight-unit form (250 times it)
/// still fits in 64 bits.
pub const MAX_SAT_PER_VB: u64 = 73786976294838206;

/// ASCII whitespace, as token separators and trimming see it.
pub open spec fn is_ws(b: u8) -> bool {
    b == 32 || b == 9 || b == 10 || b == 11 || b == 12 || b == 13
}

pub open spec fn is_digit(b: u8) -> bool {
    48 <= b && b <= 57
}

/// First index in `[from, s.len())` holding exactly byte `b`, or `s.len()`.
pub open spec fn first_byte_at(s: Seq<u8>, from: int, b: u8) -> int
    decreases s.len() - from,
{
    if from < 0 || from >= s.len() {
        s.len() as int
    } else if s[from] == b {
        from
    } else {
        first_byte_at(s, from + 1, b)
    }
}

proof fn lemma_first_byte_from(s: Seq<u8>, from: int, k: int, b: u8)
    requires
        0 <= from <= k <= s.len(),
        forall|t: int| from <= t < k ==> s[t] != b,
        k == s.len() || s[k] == b,
    ensures
        first_byte_at(s, from, b) == k,
    decreases k - from,
{
    if from < k {
        lemma_first_byte_from(s, from + 1, k, b);
    }
}

/// First index in `[from, s.len())` holding a non-whitespace byte.
pub open spec fn first_non_ws_at(s: Seq<u8>, from: int) -> int
    decreases s.len() - from,
{
    if from < 0 || from >= s.len() {
        s.len() as int
    } else if !is_ws(s[from]) {
        from
    } else {
        first_non_ws_at(s, from + 1)
    }
}

proof fn lemma_first_non_ws_from(s: Seq<u8>, from: int, k: int)
    requires
        0 <= from <= k <= s.len(),
        forall|t: int| from <= t < k ==> is_ws(s[t]),
        k == s.len() || !is_ws(s[k]),
    ensures
        first_non_ws_at(s, from) == k,
    decreases k - from,
{
    if from < k {
        lemma_first_non_ws_from(s, from + 1, k);
    }
}

/// First index in `[from, s.len())` holding a whitespace byte.
pub open spec fn first_ws_at(s: Seq<u8>, from: int) -> int
    decreases s.len() - from,
{
    if from < 0 || from >= s.len() {
        s.len() as int
    } else if is_ws(s[from]) {
        from
    } else {
        first_ws_at(s, from + 1)
    }
}

proof fn lemma_first_ws_from(s: Seq<u8>, from: int, k: int)
    requires
        0 <= from <= k <= s.len(),
        forall|t: int| from <= t < k ==> !is_ws(s[t]),
        k == s.len() || is_ws(s[k]),
    ensures
        first_ws_at(s, from) == k,
    decreases k - from,
{
    if from < k {
        lemma_first_ws_from(s, from + 1, k);
    }
}

/// First occurrence of `pat` in `s` at or after `from`, or `-1`.
pub open spec fn index_of_seq(s: Seq<u8>, pat: Seq<u8>, from: int) -> int
    decreases s.len() - from + 1,
{
    if from < 0 || from + pat.len() > s.len() {
        -1
    } else if s.subrange(from, from + pat.len()) == pat {
        from
    } else {
        index_of_seq(s, pat, from + 1)
    }
}

pub open spec fn contains_seq(s: Seq<u8>, pat: Seq<u8>) -> bool {
    index_of_seq(s, pat, 0) >= 0
}

proof fn lemma_index_of_seq_from(s: Seq<u8>, pat: Seq<u8>, from: int, k: int)
    requires
        0 <= from <= k,
        k <= s.len(),
        forall|t: int|
            from <= t < k && t + pat.len() <= s.len() ==> #[trigger] s.subrange(t, t + pat.len())
                != pat,
        k + pat.len() > s.len() || s.subrange(k, k + pat.len()) == pat,
    ensures
        index_of_seq(s, pat, from) == (if k + pat.len() > s.len() {
            -1
        } else {
            k
        }),
    decreases k - from,
{
    if from < k {
        if from + pat.len() > s.len() {
            assert(k + pat.len() > s.len());
        } else {
            lemma_index_of_seq_from(s, pat, from + 1, k);
        }
    }
}

/// Index just past the last non-whitespace byte of `s[a..b]`, or `a` when
/// all of it is whitespace.
pub open spec fn trim_end_at(s: Seq<u8>, a: int, b: int) -> int
    decreases b - a,
{
    if b <= a {
        a
    } else if is_ws(s[b - 1]) {
        trim_end_at(s, a, b - 1)
    } else {
        b
    }
}

proof fn lemma_trim_end_from(s: Seq<u8>, a: int, k: int, b: int)
    requires
        0 <= a <= k <= b <= s.len(),
        forall|t: int| k <= t < b ==> is_ws(s[t]),
        k == a || !is_ws(s[k - 1]),
    ensures
        trim_end_at(s, a, b) == k,
    decreases b - k,
{
    if k < b {
        lemma_trim_end_from(s, a, k, b - 1);
    }
}

fn find_byte(s: &Vec<u8>, from: usize, b: u8) -> (r: usize)
    requires
        from <= s@.len(),
    ensures
        r as int == first_byte_at(s@, from as int, b),
        from <= r <= s@.len(),
        r < s@.len() ==> s@[r as int] == b,
{
    let mut i: usize = from;
    while i < s.len()
        invariant
            from <= i <= s@.len(),
            forall|t: int| from <= t < i ==> s@[t] != b,
        decreases s@.len() - i,
    {
        if s[i] == b {
            proof {
                lemma_first_byte_from(s@, from as int, i as int, b);
            }
            return i;
        }
        i += 1;
    }
    proof {
        lemma_first_byte_from(s@, from as int, s@.len() as int, b);
    }
    s.len()
}

fn find_non_ws(s: &Vec<u8>, from: usize) -> (r: usize)
    requires
        from <= s@.len(),
    ensures
        r as int == first_non_ws_at(s@, from as int),
        from <= r <= s@.len(),
        r < s@.len() ==> !is_ws(s@[r as int]),
        forall|t: int| from <= t < r ==> is_ws(s@[t]),
{
    let mut i: usize = from;
    while i < s.len()
        invariant
            from <= i <= s@.len(),
            forall|t: int| from <= t < i ==> is_ws(s@[t]),
        decreases s@.len() - i,
    {
        let c = s[i];
        if !(c == 32 || c == 9 || c == 10 || c == 11 || c == 12 || c == 13) {
            proof {
                lemma_first_non_ws_from(s@, from as int, i as int);
            }
            return i;
        }
        i += 1;
    }
    proof {
        lemma_first_non_ws_from(s@, from as int, s@.len() as int);
    }
    s.len()
}

fn find_ws(s: &Vec<u8>, from: usize) -> (r: usize)
    requires
        from <= s@.len(),
    ensures
        r as int == first_ws_at(s@, from as int),
        from <= r <= s@.len(),
{
    let mut i: usize = from;
    while i < s.len()
        invariant
            from <= i <= s@.len(),
            forall|t: int| from <= t < i ==> !is_ws(s@[t]),
        decreases s@.len() - i,
    {
        let c = s[i];
        if c == 32 || c == 9 || c == 10 || c == 11 || c == 12 || c == 13 {
            proof {
                lemma_first_ws_from(s@, from as int, i as int);
            }
            return i;
        }
        i += 1;
    }
    proof {
        lemma_first_ws_from(s@, from as int, s@.len() as int);
    }
    s.len()
}

fn eq_at(s: &Vec<u8>, at: usize, pat: &Vec<u8>) -> (r: bool)
    requires
        at + pat@.len() <= s@.len(),
    ensures
        r == (s@.subrange(at as int, at + pat@.len()) == pat@),
{
    let slen: usize = s.len();
    let mut i: usize = 0;
    while i < pat.len()
        invariant
            slen == s@.len(),
            at + pat@.len() <= s@.len(),
            0 <= i <= pat@.len(),
            forall|j: int| 0 <= j < i ==> s@[at + j] == pat@[j],
        decreases pat@.len() - i,
    {
        if s[at + i] != pat[i] {
            proof {
                assert(s@.subrange(at as int, at + pat@.len())[i as int] != pat@[i as int]);
            }
            return false;
        }
        i += 1;
    }
    proof {
        assert(s@.subrange(at as int, at + pat@.len()) =~= pat@);
    }
    true
}

fn find_seq(s: &Vec<u8>, pat: &Vec<u8>, from: usize) -> (r: Option<usize>)
    requires
        from <= s@.len(),
    ensures
        match r {
            Some(k) => k as int == index_of_seq(s@, pat@, from as int) && from <= k && k
                + pat@.len() <= s@.len(),
            None => index_of_seq(s@, pat@, from as int) == -1,
        },
{
    if pat.len() == 0 {
        proof {
            assert(s@.subrange(from as int, from as int) =~= pat@);
            lemma_index_of_seq_from(s@, pat@, from as int, from as int);
        }
        return Some(from);
    }
    if s.len() < pat.len() {
        proof {
            lemma_index_of_seq_from(s@, pat@, from as int, s@.len() as int);
        }
        return None;
    }
    let last: usize = s.len() - pat.len();
    if from > last {
        proof {
            lemma_index_of_seq_from(s@, pat@, from as int, s@.len() as int);
        }
        return None;
    }
    let mut i: usize = from;
    while i <= last
        invariant
            pat@.len() >= 1,
            last < usize::MAX,
            last == s@.len() - pat@.len(),
            from <= i,
            i <= last + 1,
            forall|t: int|
                from <= t < i && t + pat@.len() <= s@.len() ==> #[trigger] s@.subrange(
                    t,
                    t + pat@.len(),
                ) != pat@,
        decreases last + 1 - i,
    {
        if eq_at(s, i, pat) {
            proof {
                lemma_index_of_seq_from(s@, pat@, from as int, i as int);
            }
            return Some(i);
        }
        i += 1;
    }
    proof {
        lemma_index_of_seq_from(s@, pat@, from as int, s@.len() as int);
    }
    None
}


/// Whether `message` contains `pattern` as a byte substring.
pub fn message_contains(message: &str, pattern: &str) -> (r: bool)
    ensures
        r == contains_seq(message.spec_bytes(), pattern.spec_bytes()),
{
    let msg = message.as_bytes_vec();
    let pat = pattern.as_bytes_vec();
    find_seq(&msg, &pat, 0).is_some()
}

/// Value of an all-digit byte sequence read in decimal.
pub open spec fn digits_val(s: Seq<u8>) -> nat
    decreases s.len(),
{
    if s.len() == 0 {
        0
    } else {
        digits_val(s.drop_last()) * 10 + (s.last() - 48) as nat
    }
}

pub open spec fn all_digits(s: Seq<u8>) -> bool {
    forall|i: int| 0 <= i < s.len() ==> is_digit(#[trigger] s[i])
}

proof fn lemma_digits_val_monotone(s: Seq<u8>, i: int)
    requires
        0 <= i <= s.len(),
    ensures
        digits_val(s.take(i)) <= digits_val(s),
    decreases s.len() - i,
{
    if i < s.len() {
        lemma_digits_val_monotone(s, i + 1);
        assert(s.take(i + 1).drop_last() =~= s.take(i));
        assert(digits_val(s.take(i + 1)) == digits_val(s.take(i)) * 10 + (s.take(i + 1).last()
            - 48) as nat);
    } else {
        assert(s.take(i) =~= s);
    }
}

/// The sat/vB value spelled by a decimal BTC/kvB token: the whole part
/// scaled by 100,000 plus the first five fraction digits; `None` when the
/// token is not a plain unsigned decimal or the value does not fit a 64-bit
/// rate. With `round_up` the value is rounded up when fraction digits past
/// the fifth are cut off, otherwise it is truncated.
/// Whether nonzero fraction digits past the fifth are being cut off.
pub open spec fn cuts_nonzero(frac: Seq<u8>) -> bool {
    exists|i: int| 5 <= i < frac.len() && frac[i] != 48
}

pub open spec fn parse_btc_per_kvb(tok: Seq<u8>, round_up: bool) -> Option<u64> {
    let dot = first_byte_at(tok, 0, 46);
    let whole = tok.take(dot);
    let fstart = if dot == tok.len() {
        dot
    } else {
        dot + 1
    };
    let frac = tok.skip(fstart);
    if tok.len() == 0 || (whole.len() == 0 && frac.len() == 0) || !all_digits(whole)
        || !all_digits(frac) {
        None
    } else {
        let keep = if frac.len() < 5 {
            frac.len() as int
        } else {
            5
        };
        let scale: nat = if keep == 0 {
            100000
        } else if keep == 1 {
            10000
        } else if keep == 2 {
            1000
        } else if keep == 3 {
            100
        } else if keep == 4 {
            10
        } else {
            1
        };
        let cut = frac.len() > 5 && cuts_nonzero(frac);
        let bump: nat = if round_up && cut {
            1
        } else {
            0
        };
        let v = digits_val(whole) * 100000 + digits_val(frac.take(keep)) * scale + bump;
        if v <= MAX_SAT_PER_VB {
            Some(v as u64)
        } else {
            None
        }
    }
}

fn ws_byte(c: u8) -> (r: bool)
    ensures
        r == is_ws(c),
{
    c == 32 || c == 9 || c == 10 || c == 11 || c == 12 || c == 13
}

fn trim_end(s: &Vec<u8>, a: usize) -> (r: usize)
    requires
        a <= s@.len(),
    ensures
        r as int == trim_end_at(s@, a as int, s@.len() as int),
        a <= r <= s@.len(),
{
    let mut b: usize = s.len();
    while b > a && ws_byte(s[b - 1])
        invariant
            a <= b <= s@.len(),
            trim_end_at(s@, a as int, s@.len() as int) == trim_end_at(s@, a as int, b as int),
        decreases b,
    {
        b = b - 1;
    }
    b
}

fn check_digits(s: &Vec<u8>) -> (r: bool)
    ensures
        r == all_digits(s@),
{
    let mut i: usize = 0;
    while i < s.len()
        invariant
            0 <= i <= s@.len(),
            forall|j: int| 0 <= j < i ==> is_digit(#[trigger] s@[j]),
        decreases s@.len() - i,
    {
        let c = s[i];
        if !(48 <= c && c <= 57) {
            return false;
        }
        i += 1;
    }
    true
}

/// Bound on the whole part: anything above it cannot fit once scaled by
/// 100,000.
const MAX_WHOLE: u64 = 737869762948;

/// Accumulates the whole part of a rate, refusing anything whose scaled
/// value cannot fit a 64-bit rate.
fn parse_whole_part(whole: &Vec<u8>) -> (r: Option<u64>)
    requires
        all_digits(whole@),
    ensures
        match r {
            Some(a) => a as nat == digits_val(whole@) && a <= MAX_WHOLE,
            None => digits_val(whole@) * 100000 > MAX_SAT_PER_VB as nat,
        },
{
    let mut acc: u64 = 0;
    let mut j: usize = 0;
    while j < whole.len()
        invariant
            0 <= j <= whole@.len(),
            all_digits(whole@),
            acc as nat == digits_val(whole@.take(j as int)),
            acc <= MAX_WHOLE,
        decreases whole@.len() - j,
    {
        let d = whole[j];
        proof {
            assert(whole@.take(j as int + 1).drop_last() =~= whole@.take(j as int));
            assert(is_digit(whole@[j as int]));
        }
        let next = acc * 10 + (d - 48) as u64;
        if next > MAX_WHOLE {
            proof {
                assert(next as nat == digits_val(whole@.take(j as int + 1)));
                lemma_digits_val_monotone(whole@, j as int + 1);
                assert(digits_val(whole@) >= next as nat);
            }
            return None;
        }
        acc = next;
        j += 1;
    }
    proof {
        assert(whole@.take(whole@.len() as int) =~= whole@);
    }
    Some(acc)
}

/// Reads a decimal BTC/kvB token as a sat/vB rate, truncating or rounding
/// up the cut-off fraction as asked.
fn parse_rate_token(tok: &Vec<u8>, round_up: bool) -> (r: Option<u64>)
    ensures
        r == parse_btc_per_kvb(tok@, round_up),
{
    let dot = find_byte(tok, 0, 46);
    let whole = copy_range(tok, 0, dot);
    let fstart = if dot == tok.len() {
        dot
    } else {
        dot + 1
    };
    let frac = copy_range(tok, fstart, tok.len());
    proof {
        assert(whole@ =~= tok@.take(dot as int));
        assert(frac@ =~= tok@.skip(fstart as int));
    }
    if tok.len() == 0 || (whole.len() == 0 && frac.len() == 0) || !check_digits(&whole)
        || !check_digits(&frac) {
        return None;
    }
    let acc = match parse_whole_part(&whole) {
        Some(a) => a,
        None => {
            proof {
                let dotg = first_byte_at(tok@, 0, 46);
                let wholeg = tok@.take(dotg);
                assert(wholeg == whole@);
                assert(digits_val(wholeg) * 100000 > MAX_SAT_PER_VB as nat);
            }
            return None;
        },
    };
    // First five fraction digits, scaled to a five-digit value.
    let keep: usize = if frac.len() < 5 {
        frac.len()
    } else {
        5
    };
    let mut facc: u64 = 0;
    let mut k: usize = 0;
    while k < keep
        invariant
            0 <= k <= keep <= 5,
            keep <= frac@.len(),
            all_digits(frac@),
            facc as nat == digits_val(frac@.take(k as int)),
            facc <= 99999,
        decreases keep - k,
    {
        let d = frac[k];
        proof {
            assert(frac@.take(k as int + 1).drop_last() =~= frac@.take(k as int));
            assert(is_digit(frac@[k as int]));
            lemma_digits_bound(frac@, k as int + 1);
            assert(pow10(0) == 1);
            assert(pow10(1) == 10);
            assert(pow10(2) == 100);
            assert(pow10(3) == 1000);
            assert(pow10(4) == 10000);
            assert(pow10(5) == 100000);
        }
        facc = facc * 10 + (d - 48) as u64;
        k += 1;
    }
    let scale: u64 = if keep == 0 {
        100000
    } else if keep == 1 {
        10000
    } else if keep == 2 {
        1000
    } else if keep == 3 {
        100
    } else if keep == 4 {
        10
    } else {
        1
    };
    // Whether nonzero digits are being cut off past the fifth.
    let mut cut = false;
    let mut m: usize = 5;
    if frac.len() > 5 {
        while m < frac.len()
            invariant
                5 <= m <= frac@.len(),
                cut == exists|i: int| 5 <= i < m && frac@[i] != 48,
            decreases frac@.len() - m,
        {
            if frac[m] != 48 {
                cut = true;
            }
            m += 1;
        }
    }
    proof {
        lemma_scaled_frac_bound(frac@, keep as int);
    }
    let bump: u64 = if round_up && cut {
        1
    } else {
        0
    };
    let v = acc * 100000 + facc * scale + bump;
    proof {
        assert(acc as nat == digits_val(whole@));
        assert(facc as nat == digits_val(frac@.take(keep as int)));
        assert(cut == (frac@.len() > 5 && exists|i: int| 5 <= i < frac@.len() && frac@[i] != 48));
        let dotg = first_byte_at(tok@, 0, 46);
        let wholeg = tok@.take(dotg);
        let fstartg = if dotg == tok@.len() as int {
            dotg
        } else {
            dotg + 1
        };
        let fracg = tok@.skip(fstartg);
        assert(wholeg == whole@);
        assert(fracg == frac@);
        let keepg = if fracg.len() < 5 {
            fracg.len() as int
        } else {
            5
        };
        assert(keepg == keep as int);
        let scaleg: nat = if keepg == 0 {
            100000
        } else if keepg == 1 {
            10000
        } else if keepg == 2 {
            1000
        } else if keepg == 3 {
            100
        } else if keepg == 4 {
            10
        } else {
            1
        };
        assert(scaleg == scale as nat);
        let cutg = fracg.len() > 5 && cuts_nonzero(fracg);
        assert(cutg == cut) by {
            assert(cuts_nonzero(fracg) == (exists|i: int| 5 <= i < fracg.len() && fracg[i] != 48));
        }
        let bumpg: nat = if round_up && cutg {
            1
        } else {
            0
        };
        let vg = digits_val(wholeg) * 100000 + digits_val(fracg.take(keepg)) * scaleg + bumpg;
        assert(vg == v as nat);
        assert(parse_btc_per_kvb(tok@, round_up) == (if vg <= MAX_SAT_PER_VB {
            Some(vg as u64)
        } else {
            None::<u64>
        }));
    }
    if v <= MAX_SAT_PER_VB {
        Some(v)
    } else {
        None
    }
}

proof fn lemma_digits_bound(s: Seq<u8>, i: int)
    requires
        0 <= i <= s.len(),
        all_digits(s),
        i <= 5,
    ensures
        digits_val(s.take(i)) < pow10(i as nat),
    decreases i,
{
    if i > 0 {
        lemma_digits_bound(s, i - 1);
        assert(s.take(i).drop_last() =~= s.take(i - 1));
        assert(is_digit(s[i - 1]));
    }
}

pub open spec fn pow10(n: nat) -> nat
    decreases n,
{
    if n == 0 {
        1
    } else {
        10 * pow10((n - 1) as nat)
    }
}

proof fn lemma_sep_bytes()
    ensures
        ("<=").spec_bytes().len() == 2,
{
    reveal_strlit("<=");
    assert(vstd::utf8::is_ascii_chars(("<=")@));
    vstd::string::is_ascii_spec_bytes("<=");
}

proof fn lemma_scaled_frac_bound(frac: Seq<u8>, keep: int)
    requires
        all_digits(frac),
        0 <= keep <= 5,
        keep <= frac.len(),
        keep == (if frac.len() < 5 {
            frac.len() as int
        } else {
            5
        }),
    ensures
        digits_val(frac.take(keep)) * (if keep == 0 {
            100000nat
        } else if keep == 1 {
            10000
        } else if keep == 2 {
            1000
        } else if keep == 3 {
            100
        } else if keep == 4 {
            10
        } else {
            1
        }) <= 99999,
{
    lemma_digits_bound(frac, keep);
    assert(pow10(0) == 1);
    assert(pow10(1) == 10);
    assert(pow10(2) == 100);
    assert(pow10(3) == 1000);
    assert(pow10(4) == 10000);
    assert(pow10(5) == 100000);
}

/// The well-known needle of a mempool replacement rejection.
pub open spec fn replacement_phrase() -> Seq<u8> {
    ("insufficient fee, rejecting replacement").spec_bytes()
}

/// The third whitespace-delimited token of `s`, when three exist.
pub open spec fn third_token(s: Seq<u8>) -> Option<Seq<u8>> {
    let a0 = first_non_ws_at(s, 0);
    let b0 = first_ws_at(s, a0);
    let a1 = first_non_ws_at(s, b0);
    let b1 = first_ws_at(s, a1);
    let a2 = first_non_ws_at(s, b1);
    let b2 = first_ws_at(s, a2);
    if a0 == s.len() || a1 == s.len() || a2 == s.len() {
        None
    } else {
        Some(s.subrange(a2, b2))
    }
}

/// The competing rate a replacement rejection names. A message without the
/// replacement phrase yields nothing. Otherwise the second
/// semicolon-delimited segment is trimmed, the piece between the first
/// `<=` and the next one (or the end) is taken, and its third
/// whitespace-delimited token is read as BTC/kvB and truncated to sat/vB.
pub open spec fn fee_rate_spec(msg: Seq<u8>) -> Option<u64> {
    if !contains_seq(msg, replacement_phrase()) {
        None
    } else {
        let i1 = first_byte_at(msg, 0, 59);
        if i1 == msg.len() {
            None
        } else {
            let i2 = first_byte_at(msg, i1 + 1, 59);
            let fee_part = msg.subrange(i1 + 1, i2);
            let a = first_non_ws_at(fee_part, 0);
            let b = trim_end_at(fee_part, a, fee_part.len() as int);
            let t = fee_part.subrange(a, b);
            let j = index_of_seq(t, ("<=").spec_bytes(), 0);
            if j < 0 {
                None
            } else {
                let j2 = index_of_seq(t, ("<=").spec_bytes(), j + 2);
                let cutoff = if j2 < 0 {
                    t.len() as int
                } else {
                    j2
                };
                let old_fee = t.subrange(j + 2, cutoff);
                match third_token(old_fee) {
                    None => None,
                    Some(tok) => parse_btc_per_kvb(tok, false),
                }
            }
        }
    }
}

/// A message that does not contain the replacement phrase names no rate.
pub proof fn lemma_no_replacement_phrase_no_rate(msg: Seq<u8>)
    requires
        !contains_seq(msg, replacement_phrase()),
    ensures
        fee_rate_spec(msg) is None,
{
}

/// Extracts the competing fee rate, in sat/vB, from a mempool replacement
/// rejection message, exactly as [`fee_rate_spec`] reads it.
pub fn fee_rate_from_message(message: &str) -> (r: Option<u64>)
    ensures
        r == fee_rate_spec(message.spec_bytes()),
{
    let msg = message.as_bytes_vec();
    let phrase = ("insufficient fee, rejecting replacement").as_bytes_vec();
    if find_seq(&msg, &phrase, 0).is_none() {
        return None;
    }
    let i1 = find_byte(&msg, 0, 59);
    if i1 == msg.len() {
        return None;
    }
    let i2 = find_byte(&msg, i1 + 1, 59);
    let fee_part = copy_range(&msg, i1 + 1, i2);
    let a = find_non_ws(&fee_part, 0);
    let b = trim_end(&fee_part, a);
    let t = copy_range(&fee_part, a, b);
    let sep = ("<=").as_bytes_vec();
    proof {
        lemma_sep_bytes();
    }
    let j = match find_seq(&t, &sep, 0) {
        None => {
            return None;
        },
        Some(j) => j,
    };
    let j2 = match find_seq(&t, &sep, j + 2) {
        Some(k) => k,
        None => t.len(),
    };
    let old_fee = copy_range(&t, j + 2, j2);
    let a0 = find_non_ws(&old_fee, 0);
    if a0 == old_fee.len() {
        return None;
    }
    let b0 = find_ws(&old_fee, a0);
    let a1 = find_non_ws(&old_fee, b0);
    if a1 == old_fee.len() {
        return None;
    }
    let b1 = find_ws(&old_fee, a1);
    let a2 = find_non_ws(&old_fee, b1);
    if a2 == old_fee.len() {
        return None;
    }
    let b2 = find_ws(&old_fee, a2);
    let tok = copy_range(&old_fee, a2, b2);
    parse_rate_token(&tok, false)
}

/// Converts an `estimatesmartfee` rate, a decimal BTC/kvB token, to sat/vB
/// rounded up.
pub fn btc_per_kvb_to_sat_per_vb_ceil(rate: &str) -> (r: Option<u64>)
    ensures
        r == parse_btc_per_kvb(rate.spec_bytes(), true),
{
    let tok = rate.as_bytes_vec();
    parse_rate_token(&tok, true)
}

} // verus!
