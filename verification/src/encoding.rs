//! Byte-level codecs shared by the RPC envelope builder and the block
//! fast-path: hexadecimal encoding and decoding, and decimal rendering of
//! integers (request ids are serialized as decimal strings).

use vstd::prelude::*;

verus! {

/// A byte that is not an ASCII hexadecimal digit was found while decoding,
/// together with its position in the input.
#[derive(Debug, Clone, Copy, PartialEq, Eq, Structural)]
pub enum HexError {
    InvalidHexCharacter { c: u8, index: usize },
}

pub open spec fn is_hex_digit(c: u8) -> bool {
    (48 <= c && c <= 57) || (97 <= c && c <= 102) || (65 <= c && c <= 70)
}

/// Value of an ASCII hex digit; meaningful only when `is_hex_digit(c)`.
pub open spec fn hex_val(c: u8) -> u8 {
    if 48 <= c && c <= 57 {
        (c - 48) as u8
    } else if 97 <= c && c <= 102 {
        (c - 97 + 10) as u8
    } else {
        (c - 65 + 10) as u8
    }
}

/// The bytes spelled by the first `2 * (s.len() / 2)` hex digits of `s`,
/// high nibble first. A trailing odd digit is ignored, as the in-place
/// decoder below ignores it.
pub open spec fn decoded_bytes(s: Seq<u8>) -> Seq<u8> {
    Seq::new((s.len() / 2) as nat, |i: int| (hex_val(s[2 * i]) * 16 + hex_val(s[2 * i + 1])) as u8)
}

/// Index of the first byte in `s[j..m]` that is not a hex digit, or `m` if
/// every byte in that range is one.
pub open spec fn first_non_hex(s: Seq<u8>, j: int, m: int) -> int
    decreases m - j,
{
    if j >= m {
        m
    } else if !is_hex_digit(s[j]) {
        j
    } else {
        first_non_hex(s, j + 1, m)
    }
}

proof fn lemma_first_non_hex_from(s: Seq<u8>, j: int, k: int, m: int)
    requires
        0 <= j <= k <= m,
        forall|t: int| j <= t < k ==> is_hex_digit(s[t]),
        k == m || !is_hex_digit(s[k]),
    ensures
        first_non_hex(s, j, m) == k,
    decreases k - j,
{
    if j < k {
        lemma_first_non_hex_from(s, j + 1, k, m);
    }
}

fn val(c: u8, idx: usize) -> (r: Result<u8, HexError>)
    ensures
        is_hex_digit(c) ==> r == Ok::<u8, HexError>(hex_val(c)),
        !is_hex_digit(c) ==> r == Err::<u8, HexError>(HexError::InvalidHexCharacter {
            c,
            index: idx,
        }),
{
    if 65 <= c && c <= 70 {
        Ok(c - 65 + 10)
    } else if 97 <= c && c <= 102 {
        Ok(c - 97 + 10)
    } else if 48 <= c && c <= 57 {
        Ok(c - 48)
    } else {
        Err(HexError::InvalidHexCharacter { c, index: idx })
    }
}

/// Decodes pairs of hex digits, high nibble first. On the first byte that
/// is not a hex digit it reports that byte and its index. A trailing odd
/// digit is ignored, as callers check evenness separately.
pub fn hex_to_bytes(hex_data: Vec<u8>) -> (r: Result<Vec<u8>, HexError>)
    ensures
        ({
            let m = 2 * (hex_data@.len() as int / 2);
            let k = first_non_hex(hex_data@, 0, m);
            if k == m {
                r matches Ok(v) && v@ == decoded_bytes(hex_data@)
            } else {
                r == Err::<Vec<u8>, HexError>(HexError::InvalidHexCharacter {
                    c: hex_data@[k],
                    index: k as usize,
                })
            }
        }),
{
    let len: usize = hex_data.len();
    let n: usize = len / 2;
    let mut out: Vec<u8> = Vec::new();
    let mut i: usize = 0;
    while i < n
        invariant
            n == hex_data@.len() / 2,
            len == hex_data@.len(),
            0 <= i <= n,
            out@.len() == i,
            forall|j: int| 0 <= j < i ==> out@[j] == decoded_bytes(hex_data@)[j],
            forall|j: int| 0 <= j < 2 * i ==> is_hex_digit(hex_data@[j]),
        decreases n - i,
    {
        let c1 = hex_data[2 * i];
        let b1 = match val(c1, 2 * i) {
            Ok(v) => v,
            Err(e) => {
                proof {
                    lemma_first_non_hex_from(
                        hex_data@,
                        0,
                        2 * (i as int),
                        2 * (hex_data@.len() as int / 2),
                    );
                }
                return Err(e);
            },
        };
        let c2 = hex_data[2 * i + 1];
        let b2 = match val(c2, 2 * i + 1) {
            Ok(v) => v,
            Err(e) => {
                proof {
                    lemma_first_non_hex_from(
                        hex_data@,
                        0,
                        2 * (i as int) + 1,
                        2 * (hex_data@.len() as int / 2),
                    );
                }
                return Err(e);
            },
        };
        out.push(b1 * 16 + b2);
        i += 1;
    }
    proof {
        lemma_first_non_hex_from(hex_data@, 0, 2 * (n as int), 2 * (hex_data@.len() as int / 2));
        assert(out@ =~= decoded_bytes(hex_data@));
    }
    Ok(out)
}

/// Lowercase hex digit for a nibble; meaningful only when `v < 16`.
pub open spec fn hex_char_of(v: u8) -> u8 {
    if v < 10 {
        (48 + v) as u8
    } else {
        (97 + v - 10) as u8
    }
}

/// Lowercase hex spelling of a byte sequence, high nibble first.
pub open spec fn hex_of(s: Seq<u8>) -> Seq<u8> {
    Seq::new(
        2 * s.len(),
        |i: int|
            if i % 2 == 0 {
                hex_char_of(s[i / 2] / 16)
            } else {
                hex_char_of(s[i / 2] % 16)
            },
    )
}

fn hex_digit(v: u8) -> (r: u8)
    requires
        v < 16,
    ensures
        r == hex_char_of(v),
{
    if v < 10 {
        48 + v
    } else {
        97 + (v - 10)
    }
}

pub fn bytes_to_hex(data: &Vec<u8>) -> (r: Vec<u8>)
    requires
        data@.len() * 2 <= usize::MAX,
    ensures
        r@ == hex_of(data@),
{
    let mut out: Vec<u8> = Vec::new();
    let mut i: usize = 0;
    while i < data.len()
        invariant
            data@.len() * 2 <= usize::MAX,
            0 <= i <= data@.len(),
            out@.len() == 2 * i,
            forall|j: int| 0 <= j < 2 * i ==> out@[j] == hex_of(data@)[j],
        decreases data@.len() - i,
    {
        let b = data[i];
        out.push(hex_digit(b / 16));
        out.push(hex_digit(b % 16));
        i += 1;
    }
    proof {
        assert(out@ =~= hex_of(data@));
    }
    out
}

/// Encoding then decoding gives the bytes back: every produced digit is a
/// valid hex digit and each pair decodes to the input byte.
pub proof fn lemma_hex_round_trip(b: Seq<u8>)
    ensures
        first_non_hex(hex_of(b), 0, 2 * b.len() as int) == 2 * b.len(),
        decoded_bytes(hex_of(b)) == b,
{
    assert forall|j: int| 0 <= j < 2 * b.len() implies is_hex_digit(hex_of(b)[j]) by {
        let v = if j % 2 == 0 {
            b[j / 2] / 16
        } else {
            b[j / 2] % 16
        };
        assert(v < 16);
    }
    lemma_first_non_hex_from(hex_of(b), 0, 2 * b.len() as int, 2 * b.len() as int);
    assert forall|i: int| 0 <= i < b.len() implies decoded_bytes(hex_of(b))[i] == b[i] by {
        let hi = b[i] / 16;
        let lo = b[i] % 16;
        assert(hex_val(hex_char_of(hi)) == hi);
        assert(hex_val(hex_char_of(lo)) == lo);
        assert(hex_of(b)[2 * i] == hex_char_of(hi));
        assert(hex_of(b)[2 * i + 1] == hex_char_of(lo));
        assert(hi * 16 + lo == b[i]) by {
            vstd::arithmetic::div_mod::lemma_fundamental_div_mod(b[i] as int, 16);
        }
    }
    assert(decoded_bytes(hex_of(b)) =~= b);
}

/// Decimal spelling of `n` in ASCII, most significant digit first, no sign
/// and no leading zeros (a single `'0'` for zero).
pub open spec fn dec_digits(n: nat) -> Seq<u8>
    decreases n,
{
    if n < 10 {
        seq![(48 + n) as u8]
    } else {
        dec_digits(n / 10).push((48 + n % 10) as u8)
    }
}

pub proof fn lemma_dec_digits_range(n: nat)
    ensures
        dec_digits(n).len() >= 1,
        forall|i: int| 0 <= i < dec_digits(n).len() ==> 48 <= #[trigger] dec_digits(n)[i]
            <= 57,
    decreases n,
{
    if n >= 10 {
        lemma_dec_digits_range(n / 10);
    }
}

pub fn u64_to_dec(n: u64) -> (r: Vec<u8>)
    ensures
        r@ == dec_digits(n as nat),
{
    let mut rev: Vec<u8> = Vec::new();
    let mut m: u64 = n;
    loop
        invariant_except_break
            rev@.len() == 0 ==> m == n,
            rev@.len() > 0 ==> m > 0 && dec_digits(n as nat) == dec_digits(m as nat)
                + rev@.reverse(),
        ensures
            dec_digits(n as nat) == rev@.reverse(),
        decreases m, (if rev@.len() == 0 { 1int } else { 0int }),
    {
        let ghost m0 = m as nat;
        let ghost rev0 = rev@;
        let d: u8 = 48 + (m % 10) as u8;
        rev.push(d);
        m = m / 10;
        proof {
            if rev0.len() == 0 {
                assert(m0 == n as nat);
            }
            assert(dec_digits(n as nat) =~= dec_digits(m0) + rev0.reverse());
            assert(rev@.reverse() =~= seq![d] + rev0.reverse());
            if m > 0 {
                assert(m0 >= 10);
                assert(dec_digits(m0) == dec_digits(m0 / 10).push((48 + m0 % 10) as u8));
                assert(dec_digits(m0) == dec_digits(m as nat).push(d));
                assert(dec_digits(m as nat).push(d) + rev0.reverse() =~= dec_digits(m as nat) + (
                seq![d] + rev0.reverse()));
                assert(dec_digits(n as nat) =~= dec_digits(m as nat) + rev@.reverse());
            } else {
                assert(m0 < 10);
                assert(dec_digits(m0) =~= seq![d]);
                assert(dec_digits(n as nat) =~= rev@.reverse());
            }
        }
        if m == 0 {
            break;
        }
    }
    let mut out: Vec<u8> = Vec::new();
    let mut j: usize = rev.len();
    while j > 0
        invariant
            0 <= j <= rev@.len(),
            dec_digits(n as nat) =~= rev@.reverse(),
            out@.len() == rev@.len() - j,
            forall|t: int| 0 <= t < out@.len() ==> out@[t] == rev@.reverse()[t],
        decreases j,
    {
        j -= 1;
        out.push(rev[j]);
    }
    proof {
        assert(out@ =~= dec_digits(n as nat));
    }
    out
}


/// Copies `s[from..to]` into a fresh vector.
pub fn copy_range(s: &Vec<u8>, from: usize, to: usize) -> (r: Vec<u8>)
    requires
        0 <= from <= to <= s@.len(),
    ensures
        r@ == s@.subrange(from as int, to as int),
{
    let mut out: Vec<u8> = Vec::new();
    let mut i: usize = from;
    while i < to
        invariant
            from <= i <= to <= s@.len(),
            out@.len() == i - from,
            forall|j: int| 0 <= j < i - from ==> out@[j] == s@[from + j],
        decreases to - i,
    {
        out.push(s[i]);
        i += 1;
    }
    proof {
        assert(out@ =~= s@.subrange(from as int, to as int));
    }
    out
}


/// The character of an ASCII digit byte; meaningful for bytes 48 through
/// 57.
pub open spec fn digit_char(b: u8) -> char {
    if b == 48 {
        '0'
    } else if b == 49 {
        '1'
    } else if b == 50 {
        '2'
    } else if b == 51 {
        '3'
    } else if b == 52 {
        '4'
    } else if b == 53 {
        '5'
    } else if b == 54 {
        '6'
    } else if b == 55 {
        '7'
    } else if b == 56 {
        '8'
    } else {
        '9'
    }
}

/// Decimal spelling of `n` as characters.
pub open spec fn dec_chars(n: nat) -> Seq<char> {
    Seq::new(dec_digits(n).len(), |i: int| digit_char(dec_digits(n)[i]))
}

/// Renders `n` in decimal.
pub fn u64_to_string(n: u64) -> (r: String)
    ensures
        r@ == dec_chars(n as nat),
{
    proof {
        reveal_strlit("0");
        reveal_strlit("1");
        reveal_strlit("2");
        reveal_strlit("3");
        reveal_strlit("4");
        reveal_strlit("5");
        reveal_strlit("6");
        reveal_strlit("7");
        reveal_strlit("8");
        reveal_strlit("9");
        lemma_dec_digits_range(n as nat);
    }
    let digits = u64_to_dec(n);
    let mut out = String::new();
    let mut i: usize = 0;
    while i < digits.len()
        invariant
            digits@ == dec_digits(n as nat),
            forall|j: int|
                0 <= j < digits@.len() ==> 48 <= #[trigger] digits@[j] <= 57,
            0 <= i <= digits@.len(),
            out@.len() == i,
            forall|j: int| 0 <= j < i ==> out@[j] == dec_chars(n as nat)[j],
        decreases digits@.len() - i,
    {
        proof {
            reveal_strlit("0");
            reveal_strlit("1");
            reveal_strlit("2");
            reveal_strlit("3");
            reveal_strlit("4");
            reveal_strlit("5");
            reveal_strlit("6");
            reveal_strlit("7");
            reveal_strlit("8");
            reveal_strlit("9");
        }
        let b = digits[i];
        if b == 48 {
            out.append("0");
        } else if b == 49 {
            out.append("1");
        } else if b == 50 {
            out.append("2");
        } else if b == 51 {
            out.append("3");
        } else if b == 52 {
            out.append("4");
        } else if b == 53 {
            out.append("5");
        } else if b == 54 {
            out.append("6");
        } else if b == 55 {
            out.append("7");
        } else if b == 56 {
            out.append("8");
        } else {
            out.append("9");
        }
        i += 1;
    }
    proof {
        assert(out@ =~= dec_chars(n as nat));
    }
    out
}

} // verus!
