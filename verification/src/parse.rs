//! Decimal parsing of the numeric strings the node returns: block heights
//! and cell capacities both arrive as decimal text and are read as
//! unsigned 64-bit integers.

use vstd::prelude::*;
use vstd::string::StrSliceExecFns;
use crate::errors::ClientError;
use crate::model::Digest;

verus! {

/// Whether `c` is a decimal digit.
pub open spec fn is_dec_digit(c: char) -> bool {
    '0' <= c && c <= '9'
}

/// The numeric value of a decimal digit.
pub open spec fn digit_value(c: char) -> nat {
    (c as int - '0' as int) as nat
}

/// Whether every character of `s` is a decimal digit.
pub open spec fn all_dec_digits(s: Seq<char>) -> bool {
    forall|i: int| 0 <= i < s.len() ==> is_dec_digit(#[trigger] s[i])
}

/// The value of a digit string read as a base-ten numeral.
pub open spec fn dec_value(s: Seq<char>) -> nat
    decreases s.len(),
{
    if s.len() == 0 {
        0
    } else {
        10 * dec_value(s.drop_last()) + digit_value(s.last())
    }
}

/// The digit part of a numeral: everything after an optional leading
/// plus sign.
pub open spec fn digits_of(s: Seq<char>) -> Seq<char> {
    if s.len() > 0 && s[0] == '+' {
        s.skip(1)
    } else {
        s
    }
}

/// Whether `s` is a decimal numeral whose value fits in 64 bits: an
/// optional leading plus sign, then at least one digit and nothing else,
/// naming a value of at most `u64::MAX`.
pub open spec fn is_u64_decimal(s: Seq<char>) -> bool {
    &&& digits_of(s).len() > 0
    &&& all_dec_digits(digits_of(s))
    &&& dec_value(digits_of(s)) <= u64::MAX
}

/// The value named by a decimal numeral.
pub open spec fn u64_decimal_value(s: Seq<char>) -> nat {
    dec_value(digits_of(s))
}

/// Reading one more digit multiplies the value so far by ten and adds
/// that digit.
proof fn lemma_dec_value_step(s: Seq<char>, i: int)
    requires
        0 <= i < s.len(),
    ensures
        dec_value(s.take(i + 1)) == 10 * dec_value(s.take(i)) + digit_value(s[i]),
{
    assert(s.take(i + 1).drop_last() =~= s.take(i));
    assert(s.take(i + 1).last() == s[i]);
}

/// The value of a numeral is no less than the value of any of its
/// prefixes.
proof fn lemma_dec_value_prefix_le(s: Seq<char>, i: int)
    requires
        0 <= i <= s.len(),
    ensures
        dec_value(s.take(i)) <= dec_value(s),
    decreases s.len() - i,
{
    if i == s.len() {
        assert(s.take(i) =~= s);
    } else {
        lemma_dec_value_step(s, i);
        lemma_dec_value_prefix_le(s, i + 1);
    }
}

/// Reads a decimal numeral as an unsigned 64-bit integer: succeeds with
/// its value exactly when the string is such a numeral, and fails with
/// `Parse` on any other string, leading zeros admitted and an overflowing
/// value refused.
pub fn parse_u64(s: &str) -> (r: Result<u64, ClientError>)
    ensures
        is_u64_decimal(s@) ==> r == Ok::<u64, ClientError>(u64_decimal_value(s@) as u64),
        !is_u64_decimal(s@) ==> r == Err::<u64, ClientError>(ClientError::Parse),
{
    let n = s.unicode_len();
    let start: usize = if n > 0 && s.get_char(0) == '+' {
        1
    } else {
        0
    };
    let ghost digits = digits_of(s@);
    proof {
        assert(digits =~= s@.skip(start as int));
    }
    if n == start {
        return Err(ClientError::Parse);
    }
    let mut acc: u64 = 0;
    let mut i: usize = start;
    while i < n
        invariant
            start <= i <= n,
            n == s@.len(),
            digits == digits_of(s@),
            digits =~= s@.skip(start as int),
            all_dec_digits(digits.take(i - start)),
            acc == dec_value(digits.take(i - start)),
        decreases n - i,
    {
        let c = s.get_char(i);
        if !('0' <= c && c <= '9') {
            assert(digits[i - start] == s@[i as int]);
            assert(!is_dec_digit(digits[i - start]));
            return Err(ClientError::Parse);
        }
        let d: u64 = (c as u32 - 48) as u64;
        assert(d == digit_value(s@[i as int]));
        proof {
            lemma_dec_value_step(digits, i - start);
            assert(digits[i - start] == s@[i as int]);
        }
        let stepped = match acc.checked_mul(10) {
            Some(m) => m.checked_add(d),
            None => None,
        };
        match stepped {
            Some(v) => {
                acc = v;
            },
            None => {
                proof {
                    assert(dec_value(digits.take(i - start + 1)) > u64::MAX);
                    lemma_dec_value_prefix_le(digits, i - start + 1);
                }
                return Err(ClientError::Parse);
            },
        }
        i += 1;
    }
    proof {
        assert(digits.take(i - start) =~= digits);
    }
    Ok(acc)
}

/// Whether `c` is a hexadecimal digit, in either case.
pub open spec fn is_hex_digit(c: char) -> bool {
    ||| ('0' <= c && c <= '9')
    ||| ('a' <= c && c <= 'f')
    ||| ('A' <= c && c <= 'F')
}

/// The numeric value of a hexadecimal digit.
pub open spec fn hex_digit_value(c: char) -> nat {
    if '0' <= c && c <= '9' {
        (c as int - '0' as int) as nat
    } else if 'a' <= c && c <= 'f' {
        (c as int - 'a' as int + 10) as nat
    } else {
        (c as int - 'A' as int + 10) as nat
    }
}

/// Whether every character of `s` is a hexadecimal digit.
pub open spec fn all_hex_digits(s: Seq<char>) -> bool {
    forall|i: int| 0 <= i < s.len() ==> is_hex_digit(#[trigger] s[i])
}

/// The byte named by the `i`th pair of hexadecimal digits of `s`.
pub open spec fn hex_byte_at(s: Seq<char>, i: int) -> nat {
    16 * hex_digit_value(s[2 * i]) + hex_digit_value(s[2 * i + 1])
}

/// Reads one hexadecimal digit, in either case.
fn hex_digit(c: char) -> (r: Option<u8>)
    ensures
        r is Some <==> is_hex_digit(c),
        match r {
            Some(v) => v == hex_digit_value(c),
            None => true,
        },
{
    if '0' <= c && c <= '9' {
        Some((c as u32 - 48) as u8)
    } else if 'a' <= c && c <= 'f' {
        Some((c as u32 - 97 + 10) as u8)
    } else if 'A' <= c && c <= 'F' {
        Some((c as u32 - 65 + 10) as u8)
    } else {
        None
    }
}

/// Reads a fixed-size digest written as exactly 64 hexadecimal digits,
/// two per byte and the high digit first, as block and transaction
/// identities travel on the wire.  Any other string is refused.
pub fn parse_hex_digest(s: &str) -> (r: Option<Digest>)
    ensures
        r is Some <==> (s@.len() == 64 && all_hex_digits(s@)),
        match r {
            Some(d) => forall|i: int| 0 <= i < 32 ==> d.bytes@[i] == hex_byte_at(s@, i),
            None => true,
        },
{
    let n = s.unicode_len();
    if n != 64 {
        return None;
    }
    let mut bytes = [0u8; 32];
    let mut i: usize = 0;
    while i < 32
        invariant
            i <= 32,
            s@.len() == 64,
            forall|k: int| 0 <= k < 2 * i ==> is_hex_digit(#[trigger] s@[k]),
            forall|j: int| 0 <= j < i ==> bytes@[j] == hex_byte_at(s@, j),
        decreases 32 - i,
    {
        let high = match hex_digit(s.get_char(2 * i)) {
            Some(v) => v,
            None => {
                assert(!is_hex_digit(s@[2 * (i as int)]));
                return None;
            },
        };
        let low = match hex_digit(s.get_char(2 * i + 1)) {
            Some(v) => v,
            None => {
                assert(!is_hex_digit(s@[2 * (i as int) + 1]));
                return None;
            },
        };
        bytes[i] = 16 * high + low;
        i += 1;
    }
    Some(Digest { bytes })
}

} // verus!
