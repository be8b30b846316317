//! Reading a weight from text: a non-negative decimal integer.

use vstd::prelude::*;
use vstd::utf8::encode_utf8;
use crate::error::Error;

verus! {

/// `byte` is an ASCII decimal digit.
pub open spec fn is_digit(byte: u8) -> bool {
    0x30 <= byte <= 0x39
}

/// Every byte is an ASCII decimal digit.
pub open spec fn all_digits(bytes: Seq<u8>) -> bool {
    forall|i: int| 0 <= i < bytes.len() ==> is_digit(#[trigger] bytes[i])
}

/// The number that the digits write in base ten.
pub open spec fn decimal_value(digits: Seq<u8>) -> nat
    decreases digits.len(),
{
    if digits.len() == 0 {
        0
    } else {
        10 * decimal_value(digits.drop_last()) + (digits.last() - 0x30) as nat
    }
}

/// The bytes after a leading plus sign, if there is one.
pub open spec fn unsigned_part(bytes: Seq<u8>) -> Seq<u8> {
    if bytes.len() > 0 && bytes[0] == 0x2b {
        bytes.drop_first()
    } else {
        bytes
    }
}

/// The weight that the bytes write: an optional plus sign, then one or more
/// decimal digits whose value fits in 32 bits. Anything else writes no weight.
pub open spec fn weight_written(bytes: Seq<u8>) -> Option<u32> {
    let digits = unsigned_part(bytes);
    if digits.len() > 0 && all_digits(digits) && decimal_value(digits) <= u32::MAX {
        Some(decimal_value(digits) as u32)
    } else {
        None
    }
}

/// The weight that a text writes.
pub open spec fn weight_in_text(text: Seq<char>) -> Option<u32> {
    weight_written(encode_utf8(text))
}

/// More digits never write a smaller number.
proof fn lemma_decimal_value_grows(digits: Seq<u8>, k: int)
    requires
        all_digits(digits),
        0 <= k <= digits.len(),
    ensures
        decimal_value(digits.take(k)) <= decimal_value(digits),
    decreases digits.len() - k,
{
    if k < digits.len() {
        assert(digits.take(k + 1).drop_last() =~= digits.take(k));
        lemma_decimal_value_grows(digits, k + 1);
    } else {
        assert(digits.take(k) =~= digits);
    }
}

/// Reads a weight: a non-negative decimal integer that fits in 32 bits.
///
/// It fails with `InvalidArgument` on any other text.
pub fn parse_weight(text: &str) -> (r: Result<u32, Error>)
    ensures
        r == match weight_in_text(text@) {
            Some(weight) => Ok::<u32, Error>(weight),
            None => Err(Error::InvalidArgument),
        },
{
    let bytes = text.as_bytes();
    let n = bytes.len();
    let start: usize = if n > 0 && bytes[0] == 0x2b {
        1
    } else {
        0
    };
    let ghost digits = unsigned_part(bytes@);
    if start == n {
        return Err(Error::InvalidArgument);
    }
    let mut value: u64 = 0;
    let mut i: usize = start;
    while i < n
        invariant
            bytes@ == encode_utf8(text@),
            n == bytes@.len(),
            start <= i <= n,
            start < n,
            digits == bytes@.skip(start as int),
            digits == unsigned_part(bytes@),
            all_digits(digits.take(i - start)),
            value == decimal_value(digits.take(i - start)),
            value <= u32::MAX,
        decreases n - i,
    {
        let byte = bytes[i];
        let ghost k = i - start;
        proof {
            assert(digits[k] == byte);
            assert(digits.take(k + 1).drop_last() =~= digits.take(k));
        }
        if byte < 0x30 || byte > 0x39 {
            return Err(Error::InvalidArgument);
        }
        value = value * 10 + (byte - 0x30) as u64;
        if value > u32::MAX as u64 {
            proof {
                if all_digits(digits) {
                    lemma_decimal_value_grows(digits, k + 1);
                }
            }
            return Err(Error::InvalidArgument);
        }
        i = i + 1;
    }
    proof {
        assert(digits.take(n - start) =~= digits);
    }
    Ok(value as u32)
}

} // verus!
