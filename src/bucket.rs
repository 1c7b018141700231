//! Domain-separated hashing of a flag key and an identifier.

use vstd::prelude::*;

verus! {

/// The BLAKE3 digest of a byte sequence.
pub uninterp spec fn blake3_of(input: Seq<u8>) -> Seq<u8>;

/// Relies on `blake3::hash` and `blake3::Hash::as_bytes`: the 32-byte BLAKE3
/// digest of `input`, a function of the bytes alone.
#[verifier::external_body]
fn blake3_digest(input: &[u8]) -> (r: [u8; 32])
    ensures
        r@ == blake3_of(input@),
{
    *blake3::hash(input).as_bytes()
}

/// Tag placed between key and identifier when hashing for the rollout gate (`:`).
pub const GATE_TAG: u8 = 0x3a;

/// Tag placed between key and identifier when hashing for the variant pick (`/`).
pub const VARIANT_TAG: u8 = 0x2f;

/// The bytes that are hashed: `key || tag || identifier`.
pub open spec fn tagged_input(tag: u8, key: Seq<u8>, id: Seq<u8>) -> Seq<u8> {
    key + seq![tag] + id
}

/// The digest of `key || tag || identifier`.
pub open spec fn bucket_digest(tag: u8, key: Seq<u8>, id: Seq<u8>) -> Seq<u8> {
    blake3_of(tagged_input(tag, key, id))
}

/// The UTF-8 encoding of a string's characters.
pub open spec fn utf8(s: Seq<char>) -> Seq<u8> {
    vstd::utf8::encode_utf8(s)
}

/// Hashes the UTF-8 bytes of `key`, then `tag`, then the UTF-8 bytes of `identifier`.
pub fn bucket(tag: u8, key: &str, identifier: &str) -> (r: [u8; 32])
    ensures
        r@ == bucket_digest(tag, utf8(key@), utf8(identifier@)),
{
    let kb = key.as_bytes();
    let ib = identifier.as_bytes();
    let mut buf: Vec<u8> = Vec::new();
    let mut i: usize = 0;
    while i < kb.len()
        invariant
            i <= kb@.len(),
            buf@ == kb@.subrange(0, i as int),
        decreases kb@.len() - i,
    {
        buf.push(kb[i]);
        i = i + 1;
    }
    buf.push(tag);
    let mut j: usize = 0;
    while j < ib.len()
        invariant
            j <= ib@.len(),
            buf@ == kb@ + seq![tag] + ib@.subrange(0, j as int),
        decreases ib@.len() - j,
    {
        buf.push(ib[j]);
        j = j + 1;
    }
    proof {
        assert(kb@.subrange(0, kb@.len() as int) =~= kb@);
        assert(ib@.subrange(0, ib@.len() as int) =~= ib@);
    }
    blake3_digest(buf.as_slice())
}

/// The unsigned little-endian value of the first four bytes of `b`.
pub open spec fn le_u32(b: Seq<u8>) -> nat {
    b[0] as nat + 256 * (b[1] as nat) + 65536 * (b[2] as nat) + 16777216 * (b[3] as nat)
}

/// The first four bytes of `b`.
pub fn hk(b: &[u8]) -> (r: [u8; 4])
    requires
        b@.len() >= 4,
    ensures
        r@ == b@.subrange(0, 4),
{
    let r = [b[0], b[1], b[2], b[3]];
    assert(r@ =~= b@.subrange(0, 4));
    r
}

/// Reads four bytes as an unsigned little-endian integer.
pub fn u32_from_le(b: [u8; 4]) -> (r: u32)
    ensures
        r as nat == le_u32(b@),
{
    b[0] as u32 + 256 * (b[1] as u32) + 65536 * (b[2] as u32) + 16777216 * (b[3] as u32)
}

} // verus!

verus! {

/// An optional identifier, as a character sequence.
pub open spec fn id_of(u: Option<&str>) -> Option<Seq<char>> {
    match u {
        Some(s) => Some(s@),
        None => None,
    }
}

} // verus!
