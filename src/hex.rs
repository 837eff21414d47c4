//! Decoding of `0x`-prefixed hexadecimal quantities, as used for every
//! numeric field of the node's JSON-RPC replies.
use vstd::prelude::*;
use crate::json::JsonShape;

verus! {

/// Value of a hexadecimal digit, or -1 when `c` is not one.
pub open spec fn digit_value(c: char) -> int {
    let u = c as u32;
    if 48 <= u && u <= 57 {
        u - 48
    } else if 97 <= u && u <= 102 {
        u - 87
    } else if 65 <= u && u <= 70 {
        u - 55
    } else {
        -1
    }
}

pub open spec fn is_hex_digit(c: char) -> bool {
    digit_value(c) >= 0
}

/// Big-endian value of a sequence of hexadecimal digits.
pub open spec fn hex_value(s: Seq<char>) -> nat
    decreases s.len(),
{
    if s.len() == 0 {
        0
    } else {
        hex_value(s.drop_last()) * 16 + digit_value(s.last()) as nat
    }
}

/// A well-formed quantity: `0x` followed by at least one hexadecimal digit.
pub open spec fn is_quantity(s: Seq<char>) -> bool {
    &&& s.len() >= 3
    &&& s[0] == '0'
    &&& s[1] == 'x'
    &&& forall|i: int| 2 <= i < s.len() ==> #[trigger] is_hex_digit(s[i])
}

/// The number a well-formed quantity denotes.
pub open spec fn quantity_value(s: Seq<char>) -> nat {
    hex_value(s.subrange(2, s.len() as int))
}

/// Why a quantity could not be decoded.
#[derive(PartialEq, Eq, Structural, Clone, Copy, Debug)]
pub enum DecodeError {
    /// Not `0x` followed by hexadecimal digits.
    Malformed,
    /// Well formed, but too large for the target integer type.
    Overflow,
}

/// What decoding `s` into an integer whose largest value is `max` yields.
pub open spec fn decode_spec(s: Seq<char>, max: nat) -> Result<nat, DecodeError> {
    if !is_quantity(s) {
        Err(DecodeError::Malformed)
    } else if quantity_value(s) > max {
        Err(DecodeError::Overflow)
    } else {
        Ok(quantity_value(s))
    }
}

proof fn lemma_hex_value_grows(s: Seq<char>, i: int, j: int)
    requires
        0 <= i <= j <= s.len(),
        forall|k: int| 0 <= k < s.len() ==> #[trigger] is_hex_digit(s[k]),
    ensures
        hex_value(s.subrange(0, i)) <= hex_value(s.subrange(0, j)),
    decreases j - i,
{
    if i < j {
        lemma_hex_value_grows(s, i, j - 1);
        assert(s.subrange(0, j).drop_last() =~= s.subrange(0, j - 1));
    }
}

fn digit_of(c: char) -> (r: Option<u8>)
    ensures
        r is Some <==> is_hex_digit(c),
        r matches Some(d) ==> d as int == digit_value(c),
{
    let u = c as u32;
    if 48 <= u && u <= 57 {
        Some((u - 48) as u8)
    } else if 97 <= u && u <= 102 {
        Some((u - 87) as u8)
    } else if 65 <= u && u <= 70 {
        Some((u - 55) as u8)
    } else {
        None
    }
}

/// Decodes a `0x`-prefixed hexadecimal quantity into a `u128`.
pub fn decode_quantity(s: &str) -> (r: Result<u128, DecodeError>)
    ensures
        match r {
            Ok(v) => decode_spec(s@, u128::MAX as nat) == Ok::<nat, DecodeError>(v as nat),
            Err(e) => decode_spec(s@, u128::MAX as nat) == Err::<nat, DecodeError>(e),
        },
{
    let n = s.unicode_len();
    if n < 3 || s.get_char(0) != '0' || s.get_char(1) != 'x' {
        return Err(DecodeError::Malformed);
    }
    let ghost digits = s@.subrange(2, n as int);
    let mut i: usize = 2;
    while i < n
        invariant
            2 <= i <= n,
            n == s@.len(),
            forall|k: int| 2 <= k < i ==> #[trigger] is_hex_digit(s@[k]),
        decreases n - i,
    {
        if digit_of(s.get_char(i)).is_none() {
            return Err(DecodeError::Malformed);
        }
        i = i + 1;
    }
    assert(is_quantity(s@));
    assert forall|k: int| 0 <= k < digits.len() implies #[trigger] is_hex_digit(digits[k]) by {
        assert(is_hex_digit(s@[k + 2]));
    }
    let mut acc: u128 = 0;
    let mut j: usize = 2;
    while j < n
        invariant
            2 <= j <= n,
            n == s@.len(),
            digits == s@.subrange(2, n as int),
            is_quantity(s@),
            forall|k: int| 0 <= k < digits.len() ==> #[trigger] is_hex_digit(digits[k]),
            acc as nat == hex_value(digits.subrange(0, j - 2)),
        decreases n - j,
    {
        let d = match digit_of(s.get_char(j)) {
            Some(d) => d,
            None => {
                assert(is_hex_digit(digits[j - 2]));
                return Err(DecodeError::Malformed);
            },
        };
        assert(digits.subrange(0, j - 1).drop_last() =~= digits.subrange(0, j - 2));
        assert(digits[j - 2] == s@[j as int]);
        if acc > (u128::MAX - d as u128) / 16 {
            proof {
                lemma_hex_value_grows(digits, j - 1, digits.len() as int);
                assert(digits.subrange(0, digits.len() as int) =~= digits);
                assert(acc * 16 + d > u128::MAX) by (nonlinear_arith)
                    requires
                        acc > (u128::MAX - d as u128) / 16,
                        d < 16,
                ;
                assert(hex_value(digits.subrange(0, j - 1)) == acc * 16 + d);
                assert(quantity_value(s@) == hex_value(digits));
            }
            return Err(DecodeError::Overflow);
        }
        proof {
            assert(acc * 16 + d <= u128::MAX) by (nonlinear_arith)
                requires
                    acc <= (u128::MAX - d as u128) / 16,
                    d < 16,
            ;
        }
        acc = acc * 16 + d as u128;
        j = j + 1;
    }
    assert(digits.subrange(0, n - 2) =~= digits);
    Ok(acc)
}

/// Decodes a `0x`-prefixed hexadecimal quantity into a `u64`.
pub fn decode_quantity_u64(s: &str) -> (r: Result<u64, DecodeError>)
    ensures
        match r {
            Ok(v) => decode_spec(s@, u64::MAX as nat) == Ok::<nat, DecodeError>(v as nat),
            Err(e) => decode_spec(s@, u64::MAX as nat) == Err::<nat, DecodeError>(e),
        },
{
    match decode_quantity(s) {
        Ok(v) => {
            if v > u64::MAX as u128 {
                Err(DecodeError::Overflow)
            } else {
                Ok(v as u64)
            }
        },
        Err(e) => Err(e),
    }
}

/// Decodes a JSON member holding a quantity into an `i64`; a member that is
/// no string is malformed.
pub fn hex_to_int64(data: &JsonShape) -> (r: Result<i64, DecodeError>)
    ensures
        match data {
            JsonShape::Text(s) => match r {
                Ok(v) => v >= 0 && decode_spec(s@, i64::MAX as nat) == Ok::<nat, DecodeError>(
                    v as nat,
                ),
                Err(e) => decode_spec(s@, i64::MAX as nat) == Err::<nat, DecodeError>(e),
            },
            _ => r == Err::<i64, DecodeError>(DecodeError::Malformed),
        },
{
    match data {
        JsonShape::Text(s) => match decode_quantity_u64(s) {
            Ok(v) => {
                if v > i64::MAX as u64 {
                    Err(DecodeError::Overflow)
                } else {
                    Ok(v as i64)
                }
            },
            Err(e) => Err(e),
        },
        _ => Err(DecodeError::Malformed),
    }
}

} // verus!
