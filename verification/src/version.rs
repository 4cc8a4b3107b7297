//! The protocol version: the major number of the package's version.

use crate::contract::SubscriptionContract;
use vstd::prelude::*;
use vstd::string::StringSliceAdditionalSpecFns;

verus! {

/// The position of the first `.` at or after `start`, or the length where
/// there is none.
pub open spec fn dot_from(version: Seq<u8>, start: int) -> int
    decreases version.len() - start,
{
    if start < 0 || start >= version.len() || version[start] == 0x2e {
        start
    } else {
        dot_from(version, start + 1)
    }
}

/// The part of a version before its first `.`.
pub open spec fn major_part(version: Seq<u8>) -> Seq<u8> {
    version.take(dot_from(version, 0))
}

/// The byte is one of the characters `0` to `9`.
pub open spec fn is_digit(byte: u8) -> bool {
    0x30 <= byte <= 0x39
}

/// The number that a string of decimal digits writes.
pub open spec fn decimal_value(digits: Seq<u8>) -> nat
    decreases digits.len(),
{
    if digits.len() == 0 {
        0
    } else {
        let last = if is_digit(digits.last()) {
            (digits.last() - 0x30) as nat
        } else {
            0
        };
        decimal_value(digits.drop_last()) * 10 + last
    }
}

/// A number without the `+` that may stand before it.
pub open spec fn unsigned_part(number: Seq<u8>) -> Seq<u8> {
    if number.len() > 0 && number[0] == 0x2b {
        number.drop_first()
    } else {
        number
    }
}

/// The major number of a version: what stands before the first `.`, where
/// that is a decimal number, with or without a `+` before it, that 32 bits
/// can hold.
pub open spec fn major_version(version: Seq<u8>) -> Option<u32> {
    let digits = unsigned_part(major_part(version));
    if digits.len() > 0 && (forall|i: int| 0 <= i < digits.len() ==> is_digit(#[trigger] digits[i]))
        && decimal_value(digits) <= u32::MAX {
        Some(decimal_value(digits) as u32)
    } else {
        None
    }
}

proof fn lemma_dot_bounds(version: Seq<u8>, start: int)
    requires
        0 <= start <= version.len(),
    ensures
        start <= dot_from(version, start) <= version.len(),
    decreases version.len() - start,
{
    if start < version.len() && version[start] != 0x2e {
        lemma_dot_bounds(version, start + 1);
    }
}

proof fn lemma_decimal_value_grows(digits: Seq<u8>, count: int)
    requires
        0 <= count <= digits.len(),
    ensures
        decimal_value(digits.take(count)) <= decimal_value(digits),
    decreases digits.len() - count,
{
    if count < digits.len() {
        lemma_decimal_value_grows(digits, count + 1);
        assert(digits.take(count + 1).drop_last() =~= digits.take(count));
    } else {
        assert(digits.take(count) =~= digits);
    }
}

/// Reads the major number of a version such as `1.4.2`.
pub fn parse_major_version(package_version: &str) -> (version: Option<u32>)
    ensures
        version == major_version(package_version.spec_bytes()),
{
    let bytes = package_version.as_bytes();
    let start: usize = if bytes.len() > 0 && bytes[0] == 0x2b {
        1
    } else {
        0
    };
    let ghost dot = dot_from(bytes@, 0);
    let ghost digits = unsigned_part(major_part(bytes@));
    let mut value: u32 = 0;
    let mut read: usize = start;
    proof {
        lemma_dot_bounds(bytes@, start as int);
        assert(digits =~= bytes@.subrange(start as int, dot));
        assert(digits.take(0) =~= Seq::<u8>::empty());
    }
    while read < bytes.len() && bytes[read] != 0x2e
        invariant
            start <= read <= dot <= bytes.len(),
            bytes@ == package_version.spec_bytes(),
            dot == dot_from(bytes@, read as int),
            digits == unsigned_part(major_part(bytes@)),
            digits == bytes@.subrange(start as int, dot),
            forall|i: int| 0 <= i < read - start ==> is_digit(#[trigger] digits[i]),
            value == decimal_value(digits.take(read - start)),
        decreases bytes.len() - read,
    {
        let byte = bytes[read];
        proof {
            lemma_dot_bounds(bytes@, read + 1);
            assert(digits[read - start] == byte);
            assert(digits.take(read + 1 - start).drop_last() =~= digits.take(read - start));
        }
        if byte < 0x30 || byte > 0x39 {
            return None;
        }
        let next: u64 = (value as u64) * 10 + ((byte - 0x30) as u64);
        if next > u32::MAX as u64 {
            proof {
                lemma_decimal_value_grows(digits, read + 1 - start);
            }
            return None;
        }
        value = next as u32;
        read += 1;
    }
    proof {
        assert(digits.take(read - start) =~= digits);
    }
    if read == start {
        return None;
    }
    Some(value)
}

impl SubscriptionContract {
    /// The protocol version: the major number of `package_version`, the
    /// version of the package that holds the service.
    pub fn version(package_version: &str) -> (version: Option<u32>)
        ensures
            version == major_version(package_version.spec_bytes()),
    {
        parse_major_version(package_version)
    }
}

} // verus!
