use vstd::prelude::*;
use vstd::string::StringSliceAdditionalSpecFns;

verus! {

/// The UTF-8 bytes of a text.
pub open spec fn text_bytes(s: Seq<char>) -> Seq<u8> {
    vstd::utf8::encode_utf8(s)
}

/// The value of a string of ASCII decimal digits.
pub open spec fn digits_value(d: Seq<u8>) -> nat
    decreases d.len(),
{
    if d.len() == 0 {
        0
    } else {
        digits_value(d.drop_last()) * 10 + (d.last() - 48) as nat
    }
}

/// Every byte is an ASCII decimal digit.
pub open spec fn all_digits(d: Seq<u8>) -> bool {
    forall|i: int| 0 <= i < d.len() ==> 48 <= #[trigger] d[i] <= 57
}

/// The integer that Rust's `str::parse` reads from the bytes `b`, before the range
/// of the target type is checked: an optional `+` (or, for a signed type, `-`), then
/// one or more decimal digits and nothing else.
pub open spec fn spec_parse_int(b: Seq<u8>, signed: bool) -> Option<int> {
    let neg = parse_neg(b, signed);
    let rest = parse_rest(b, signed);
    if rest.len() > 0 && all_digits(rest) {
        Some(
            if neg {
                -(digits_value(rest) as int)
            } else {
                digits_value(rest) as int
            },
        )
    } else {
        None
    }
}

/// A leading `-` that makes the number negative.
pub open spec fn parse_neg(b: Seq<u8>, signed: bool) -> bool {
    signed && b.len() > 0 && b[0] == 45u8
}

/// The digits after the sign.
pub open spec fn parse_rest(b: Seq<u8>, signed: bool) -> Seq<u8> {
    if b.len() > 0 && (b[0] == 43u8 || parse_neg(b, signed)) {
        b.skip(1)
    } else {
        b
    }
}

/// What `str::parse` gives for a type with values `lo..=hi`.
pub open spec fn spec_parse_in(b: Seq<u8>, signed: bool, lo: int, hi: int) -> Option<int> {
    match spec_parse_int(b, signed) {
        Some(v) => if lo <= v <= hi {
            Some(v)
        } else {
            None
        },
        None => None,
    }
}

proof fn lemma_digits_value_step(d: Seq<u8>, i: int)
    requires
        0 <= i < d.len(),
    ensures
        digits_value(d.take(i + 1)) == digits_value(d.take(i)) * 10 + (d[i] - 48) as nat,
{
    assert(d.take(i + 1).drop_last() =~= d.take(i));
}

/// Reads a sign and decimal digits from `s` as `str::parse` does, into a sign and a
/// magnitude; `None` where the text is no number or its magnitude exceeds `u128`.
pub fn parse_decimal(s: &str, signed: bool) -> (r: Option<(bool, u128)>)
    ensures
        match spec_parse_int(s.spec_bytes(), signed) {
            None => r is None,
            Some(v) => if -(u128::MAX as int) <= v <= u128::MAX {
                (r matches Some((neg, m)) && (if neg {
                    -(m as int)
                } else {
                    m as int
                }) == v)
            } else {
                r is None
            },
        },
{
    let b = s.as_bytes();
    let ghost bs = s.spec_bytes();
    assert(b@ == bs);
    let n = b.len();
    let mut start: usize = 0;
    let mut neg = false;
    if n > 0 && b[0] == 43u8 {
        start = 1;
    } else if signed && n > 0 && b[0] == 45u8 {
        start = 1;
        neg = true;
    }
    let ghost rest = if start == 1 {
        bs.skip(1)
    } else {
        bs
    };
    assert(neg == parse_neg(bs, signed));
    assert(rest =~= bs.skip(start as int));
    assert(rest == parse_rest(bs, signed));
    if start >= n {
        return None;
    }
    let mut acc: u128 = 0;
    let mut i: usize = start;
    while i < n
        invariant
            start <= i <= n,
            n == b@.len(),
            b@ == bs,
            bs == s.spec_bytes(),
            rest == parse_rest(bs, signed),
            neg == parse_neg(bs, signed),
            rest =~= bs.skip(start as int),
            all_digits(rest.take(i - start)),
            acc as nat == digits_value(rest.take(i - start)),
        decreases n - i,
    {
        let c = b[i];
        proof {
            assert(rest[i - start] == c);
            lemma_digits_value_step(rest, i - start);
        }
        if c < 48u8 || c > 57u8 {
            proof {
                assert(!all_digits(rest));
            }
            return None;
        }
        let dgt = (c - 48u8) as u128;
        if acc > (u128::MAX - dgt) / 10 {
            proof {
                assert(all_digits(rest.take(i - start + 1))) by {
                    assert forall|j: int| 0 <= j < i - start + 1 implies 48 <= #[trigger] rest.take(
                        i - start + 1,
                    )[j] <= 57 by {
                        if j < i - start {
                            assert(rest.take(i - start + 1)[j] == rest.take(i - start)[j]);
                        }
                    }
                }
                assert(digits_value(rest.take(i - start + 1)) > u128::MAX) by (nonlinear_arith)
                    requires
                        digits_value(rest.take(i - start + 1)) == acc * 10 + dgt,
                        acc > (u128::MAX - dgt) / 10,
                        0 <= dgt <= 9,
                ;
                if all_digits(rest) {
                    lemma_digits_value_prefix_bound(rest, i - start + 1);
                }
            }
            return None;
        }
        acc = acc * 10 + dgt;
        i = i + 1;
        proof {
            assert forall|j: int| 0 <= j < i - start implies 48 <= #[trigger] rest.take(i - start)[j]
                <= 57 by {
                if j < i - start - 1 {
                    assert(rest.take(i - start)[j] == rest.take(i - start - 1)[j]);
                }
            }
        }
    }
    assert(rest.take(n - start) =~= rest);
    Some((neg, acc))
}

/// A longer run of digits has at least the value of its prefix.
proof fn lemma_digits_value_prefix_bound(d: Seq<u8>, k: int)
    requires
        0 <= k <= d.len(),
        all_digits(d),
    ensures
        digits_value(d) >= digits_value(d.take(k)),
    decreases d.len() - k,
{
    if k < d.len() {
        lemma_digits_value_prefix_bound(d, k + 1);
        lemma_digits_value_step(d, k);
    } else {
        assert(d.take(k) =~= d);
    }
}

/// `str::parse::<u64>`: `None` where Rust reports an error.
pub fn parse_u64(s: &str) -> (r: Option<u64>)
    ensures
        r == match spec_parse_in(s.spec_bytes(), false, 0, u64::MAX as int) {
            Some(v) => Some(v as u64),
            None => None::<u64>,
        },
{
    match parse_decimal(s, false) {
        Some((_, m)) => if m <= u64::MAX as u128 {
            Some(m as u64)
        } else {
            None
        },
        None => None,
    }
}

/// `str::parse::<usize>`: `None` where Rust reports an error.
pub fn parse_usize(s: &str) -> (r: Option<usize>)
    ensures
        r == match spec_parse_in(s.spec_bytes(), false, 0, usize::MAX as int) {
            Some(v) => Some(v as usize),
            None => None::<usize>,
        },
{
    match parse_decimal(s, false) {
        Some((_, m)) => if m <= usize::MAX as u128 {
            Some(m as usize)
        } else {
            None
        },
        None => None,
    }
}

/// `str::parse::<u128>`: `None` where Rust reports an error.
pub fn parse_u128(s: &str) -> (r: Option<u128>)
    ensures
        r == match spec_parse_in(s.spec_bytes(), false, 0, u128::MAX as int) {
            Some(v) => Some(v as u128),
            None => None::<u128>,
        },
{
    match parse_decimal(s, false) {
        Some((_, m)) => Some(m),
        None => None,
    }
}

/// `str::parse::<i32>`: `None` where Rust reports an error.
pub fn parse_i32(s: &str) -> (r: Option<i32>)
    ensures
        r == match spec_parse_in(s.spec_bytes(), true, i32::MIN as int, i32::MAX as int) {
            Some(v) => Some(v as i32),
            None => None::<i32>,
        },
{
    match parse_decimal(s, true) {
        Some((neg, m)) => {
            if neg {
                if m <= 0x8000_0000u128 {
                    Some((0i64 - (m as i64)) as i32)
                } else {
                    None
                }
            } else if m <= 0x7fff_ffffu128 {
                Some(m as i32)
            } else {
                None
            }
        },
        None => None,
    }
}

/// `str::parse::<i64>`: `None` where Rust reports an error.
pub fn parse_i64(s: &str) -> (r: Option<i64>)
    ensures
        r == match spec_parse_in(s.spec_bytes(), true, i64::MIN as int, i64::MAX as int) {
            Some(v) => Some(v as i64),
            None => None::<i64>,
        },
{
    match parse_decimal(s, true) {
        Some((neg, m)) => {
            if neg {
                if m <= 0x8000_0000_0000_0000u128 {
                    Some((0i128 - (m as i128)) as i64)
                } else {
                    None
                }
            } else if m <= 0x7fff_ffff_ffff_ffffu128 {
                Some(m as i64)
            } else {
                None
            }
        },
        None => None,
    }
}

/// `b` with its ASCII capitals made small, as `str::to_ascii_lowercase` does.
pub open spec fn ascii_lower(b: u8) -> u8 {
    if 65 <= b <= 90 {
        (b + 32) as u8
    } else {
        b
    }
}

/// `s.to_ascii_lowercase() == t` for the bytes of `s` and an all-small ASCII `t`.
pub open spec fn lower_eq(s: Seq<u8>, t: Seq<u8>) -> bool {
    s.len() == t.len() && forall|i: int| 0 <= i < s.len() ==> ascii_lower(#[trigger] s[i]) == t[i]
}

/// Whether `s`, made lowercase, is `t`.
pub fn lowercase_equals(s: &str, t: &[u8]) -> (r: bool)
    ensures
        r == lower_eq(s.spec_bytes(), t@),
{
    let b = s.as_bytes();
    if b.len() != t.len() {
        return false;
    }
    let mut i: usize = 0;
    while i < b.len()
        invariant
            b@ == s.spec_bytes(),
            b.len() == t.len(),
            i <= b.len(),
            forall|j: int| 0 <= j < i ==> ascii_lower(#[trigger] b@[j]) == t@[j],
        decreases b.len() - i,
    {
        let c = b[i];
        let l: u8 = if c >= 65u8 && c <= 90u8 {
            c + 32
        } else {
            c
        };
        if l != t[i] {
            return false;
        }
        i = i + 1;
    }
    true
}

} // verus!
