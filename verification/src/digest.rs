//! Bytes of text, SHA-256 digests (through `sha2`) and their hexadecimal form.
use vstd::prelude::*;
use crate::identity::hex_char;

verus! {

/// The UTF-8 encoding of one character.
pub open spec fn utf8_char(c: char) -> Seq<u8> {
    let v = c as nat;
    if v < 0x80 {
        seq![v as u8]
    } else if v < 0x800 {
        seq![(0xC0 + v / 64) as u8, (0x80 + v % 64) as u8]
    } else if v < 0x10000 {
        seq![(0xE0 + v / 4096) as u8, (0x80 + (v / 64) % 64) as u8, (0x80 + v % 64) as u8]
    } else {
        seq![
            (0xF0 + v / 262144) as u8,
            (0x80 + (v / 4096) % 64) as u8,
            (0x80 + (v / 64) % 64) as u8,
            (0x80 + v % 64) as u8,
        ]
    }
}

/// The UTF-8 encoding of a text.
pub open spec fn utf8(s: Seq<char>) -> Seq<u8>
    decreases s.len(),
{
    if s.len() == 0 {
        seq![]
    } else {
        utf8(s.drop_last()) + utf8_char(s.last())
    }
}

/// The bytes of a text in UTF-8 (`str::as_bytes`).
#[verifier::external_body]
pub(crate) fn utf8_bytes(s: &str) -> (r: Vec<u8>)
    ensures
        r@ == utf8(s@),
{
    s.as_bytes().to_vec()
}

/// The SHA-256 digest that `sha2::Sha256` computes for some bytes.
pub uninterp spec fn sha256_of(data: Seq<u8>) -> Seq<u8>;

/// The SHA-256 digest of `data` (`sha2::Sha256::digest`): 32 bytes.
#[verifier::external_body]
pub(crate) fn sha256(data: &[u8]) -> (r: Vec<u8>)
    ensures
        r@ == sha256_of(data@),
        r@.len() == 32,
{
    <sha2::Sha256 as sha2::Digest>::digest(data).as_slice().to_vec()
}

/// Each byte as two lower-case hexadecimal digits, in order.
pub open spec fn hex_of_bytes(b: Seq<u8>) -> Seq<char>
    decreases b.len(),
{
    if b.len() == 0 {
        seq![]
    } else {
        hex_of_bytes(b.drop_last()) + seq![
            hex_char((b.last() / 16) as nat),
            hex_char((b.last() % 16) as nat),
        ]
    }
}

/// The lower-case hexadecimal digit for `d`.
fn hex_digit(d: u8) -> (c: char)
    requires
        d < 16,
    ensures
        c == hex_char(d as nat),
{
    if d < 10 {
        (d + 48) as char
    } else {
        (d + 87) as char
    }
}

/// The lower-case hexadecimal text of some bytes.
pub fn hex_text(b: &[u8]) -> (r: String)
    ensures
        r@ == hex_of_bytes(b@),
{
    let mut r = String::new();
    let mut i: usize = 0;
    assert(b@.take(0) =~= seq![]);
    while i < b.len()
        invariant
            i <= b@.len(),
            r@ == hex_of_bytes(b@.take(i as int)),
        decreases b.len() - i,
    {
        assert(b@.take(i + 1).drop_last() =~= b@.take(i as int));
        let hi = hex_digit(b[i] / 16);
        let lo = hex_digit(b[i] % 16);
        crate::text::push_char(&mut r, hi);
        crate::text::push_char(&mut r, lo);
        assert(r@ =~= hex_of_bytes(b@.take(i + 1)));
        i = i + 1;
    }
    assert(b@.take(b@.len() as int) =~= b@);
    r
}

/// The lower-case hexadecimal SHA-256 digest of the UTF-8 bytes of a text.
pub open spec fn sha256_hex(s: Seq<char>) -> Seq<char> {
    hex_of_bytes(sha256_of(utf8(s)))
}

/// The lower-case hexadecimal SHA-256 digest of the UTF-8 bytes of a text.
pub fn sha256_hex_text(s: &str) -> (r: String)
    ensures
        r@ == sha256_hex(s@),
{
    let bytes = utf8_bytes(s);
    let d = sha256(bytes.as_slice());
    hex_text(d.as_slice())
}

} // verus!
