//! Seeded hashing, a seekable generator of random bits, and seeds from text and time.

pub mod stateful_rand;
pub mod stateless_rand;

pub use stateful_rand::StatefulRand;
pub use stateless_rand::StatelessRand;

use stateless_rand::{spec_hash_bytes, words_encoding};
use vstd::prelude::*;
use vstd::string::StringSliceAdditionalSpecFns;

verus! {

/// The seed under which a text that is no number is hashed.
pub const TEXT_SEED: u64 = 0x5712_5EED_DE7E_C7ED;

/// Whether `byte` is one of the characters `0` to `9`.
pub open spec fn is_digit(byte: u8) -> bool {
    0x30 <= byte <= 0x39
}

/// Whether `bytes` holds nothing but digits.
pub open spec fn all_digits(bytes: Seq<u8>) -> bool {
    forall|i: int| 0 <= i < bytes.len() ==> is_digit(#[trigger] bytes[i])
}

/// The number that the digits `digits` write in base ten.
pub open spec fn digits_value(digits: Seq<u8>) -> nat
    decreases digits.len(),
{
    if digits.len() == 0 {
        0
    } else {
        10 * digits_value(digits.drop_last()) + (digits.last() - 0x30) as nat
    }
}

/// `bytes` without the sign in front, if there is one.
pub open spec fn unsigned_part(bytes: Seq<u8>) -> Seq<u8> {
    if bytes.len() > 0 && (bytes[0] == 0x2B || bytes[0] == 0x2D) {
        bytes.skip(1)
    } else {
        bytes
    }
}

/// The integer that `bytes` writes in base ten: an optional `+` or `-`, then one digit or
/// more, and nothing else.
pub open spec fn spec_parse_integer(bytes: Seq<u8>) -> Option<int> {
    let digits = unsigned_part(bytes);
    if digits.len() == 0 || !all_digits(digits) {
        None
    } else if bytes[0] == 0x2D {
        Some(-(digits_value(digits) as int))
    } else {
        Some(digits_value(digits) as int)
    }
}

/// The seed that `bytes` writes: an integer that a signed or an unsigned 64-bit word can
/// hold, a negative one in two's complement.
pub open spec fn spec_integer_seed(bytes: Seq<u8>) -> Option<u64> {
    match spec_parse_integer(bytes) {
        Some(value) => if 0 <= value <= u64::MAX {
            Some(value as u64)
        } else if i64::MIN <= value < 0 {
            Some((value + 0x1_0000_0000_0000_0000) as u64)
        } else {
            None
        },
        None => None,
    }
}

/// The seed that a text gives: the number it writes, and else the digest of its bytes under
/// `TEXT_SEED`.
pub open spec fn spec_parse_seed(bytes: Seq<u8>) -> u64 {
    match spec_integer_seed(bytes) {
        Some(seed) => seed,
        None => spec_hash_bytes(TEXT_SEED, bytes),
    }
}

/// The seed that `bytes` writes as a number, if they write one that fits.
pub fn parse_integer_seed(bytes: &[u8]) -> (seed: Option<u64>)
    ensures
        seed == spec_integer_seed(bytes@),
{
    let len = bytes.len();
    if len == 0 {
        return None;
    }
    let negative = bytes[0] == 0x2D;
    let start: usize = if negative || bytes[0] == 0x2B { 1 } else { 0 };
    if start == len {
        return None;
    }
    let ghost digits = unsigned_part(bytes@);
    let mut magnitude: u64 = 0;
    let mut overflow = false;
    let mut idx: usize = start;
    while idx < len
        invariant
            start <= idx <= len,
            len == bytes@.len(),
            digits == bytes@.skip(start as int),
            digits == unsigned_part(bytes@),
            all_digits(digits.take(idx - start)),
            !overflow ==> magnitude == digits_value(digits.take(idx - start)),
            overflow ==> digits_value(digits.take(idx - start)) > u64::MAX,
        decreases len - idx,
    {
        let byte = bytes[idx];
        if byte < 0x30 || byte > 0x39 {
            assert(digits[idx - start] == byte);
            return None;
        }
        proof {
            let next = digits.take(idx - start + 1);
            assert(next.drop_last() =~= digits.take(idx - start));
        }
        if !overflow {
            let digit = (byte - 0x30) as u64;
            match magnitude.checked_mul(10) {
                Some(tenfold) => match tenfold.checked_add(digit) {
                    Some(sum) => {
                        magnitude = sum;
                    },
                    None => {
                        overflow = true;
                    },
                },
                None => {
                    overflow = true;
                },
            }
        }
        idx += 1;
    }
    proof {
        assert(digits.take(len - start) =~= digits);
    }
    if overflow {
        None
    } else if !negative {
        Some(magnitude)
    } else if magnitude == 0 {
        Some(0)
    } else if magnitude <= 0x8000_0000_0000_0000 {
        Some(0xFFFF_FFFF_FFFF_FFFF - magnitude + 1)
    } else {
        None
    }
}

/// The seed that a text gives: the number it writes, as a signed or an unsigned 64-bit
/// integer, and else the digest of its bytes.
pub fn parse_seed(string: &str) -> (seed: u64)
    ensures
        seed == spec_parse_seed(string.spec_bytes()),
{
    let bytes = string.as_bytes();
    match parse_integer_seed(bytes) {
        Some(seed) => seed,
        None => StatelessRand::from_seed(TEXT_SEED).hash_bytes(bytes),
    }
}

/// The seed for a moment of time, given as whole seconds and the nanoseconds past them: the
/// digest of the nanoseconds under the seconds.
pub fn seed_from_time(secs: u64, nanos: u32) -> (seed: u64)
    ensures
        seed == spec_hash_bytes(secs, words_encoding(seq![nanos as u64])),
{
    StatelessRand::from_seed(secs).hash_1u64(nanos as u64)
}

} // verus!
