//! Random identifiers (version-4 UUIDs held as their 128-bit value) and their text forms.
use vstd::prelude::*;

verus! {

/// The lower-case hexadecimal digit for `d`.
pub open spec fn hex_char(d: nat) -> char
    recommends
        d < 16,
{
    if d < 10 {
        (d + 48) as char
    } else {
        (d + 87) as char
    }
}

/// The `n` lowest hexadecimal digits of `v`, most significant first, in lower case.
pub open spec fn hex_fixed(v: nat, n: nat) -> Seq<char>
    decreases n,
{
    if n == 0 {
        seq![]
    } else {
        hex_fixed(v / 16, (n - 1) as nat).push(hex_char(v % 16))
    }
}

/// The version nibble of a UUID held as a 128-bit value.
pub open spec fn uuid_version(v: u128) -> u128 {
    (v >> 76u128) & 0xfu128
}

/// A fresh random UUID of version 4 (`uuid::Uuid::new_v4`), as its 128-bit value.
///
/// The value comes from the operating system's random source, so nothing but its version
/// nibble is promised.
#[verifier::external_body]
pub(crate) fn new_uuid() -> (r: u128)
    ensures
        uuid_version(r) == 4,
{
    uuid::Uuid::new_v4().as_u128()
}

/// The "simple" text form of a UUID (`uuid::Uuid::simple`): its 32 hexadecimal digits in
/// lower case, with no hyphens.
#[verifier::external_body]
pub(crate) fn uuid_simple_text(v: u128) -> (r: String)
    ensures
        r@ == hex_fixed(v as nat, 32),
{
    uuid::Uuid::from_u128(v).simple().to_string()
}

/// The hyphenated text form of a UUID: 8, 4, 4, 4 and 12 lower-case hexadecimal digits
/// joined by `-`.
pub open spec fn uuid_hyphenated(v: u128) -> Seq<char> {
    hex_fixed(v as nat / 0x1_0000_0000_0000_0000_0000_0000, 8) + seq!['-'] + hex_fixed(
        v as nat / 0x1_0000_0000_0000_0000_0000,
        4,
    ) + seq!['-'] + hex_fixed(v as nat / 0x1_0000_0000_0000_0000, 4) + seq!['-'] + hex_fixed(
        v as nat / 0x1_0000_0000_0000,
        4,
    ) + seq!['-'] + hex_fixed(v as nat, 12)
}

/// The hyphenated text form of a UUID (`uuid::Uuid::hyphenated`, also its `Display`).
#[verifier::external_body]
pub(crate) fn uuid_hyphenated_text(v: u128) -> (r: String)
    ensures
        r@ == uuid_hyphenated(v),
{
    uuid::Uuid::from_u128(v).hyphenated().to_string()
}

} // verus!
