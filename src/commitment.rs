//! Commitments: the lowercase hex form of the big-endian bytes of a 64-bit
//! digest of the secret value.
use vstd::prelude::*;

verus! {

/// The 64-bit digest of an integer, as std's default hasher computes it.
pub uninterp spec fn digest_of(n: u64) -> u64;

/// Relies on `BuildHasher::hash_one` with a `DefaultHasher` made by
/// `DefaultHasher::new` (through `BuildHasherDefault`): such hashers are all
/// alike, so the hash of an integer depends on the integer alone.
#[verifier::external_body]
fn digest(n: u64) -> (r: u64)
    ensures
        r == digest_of(n),
{
    let build = std::hash::BuildHasherDefault::<std::collections::hash_map::DefaultHasher>::default();
    std::hash::BuildHasher::hash_one(&build, n)
}

/// The lowercase hex digit of a value below 16.
pub open spec fn hex_digit(d: u8) -> char {
    seq!['0', '1', '2', '3', '4', '5', '6', '7', '8', '9', 'a', 'b', 'c', 'd', 'e', 'f'][d as int]
}

/// Two lowercase hex digits for each byte, the high half first.
pub open spec fn hex_seq(b: Seq<u8>) -> Seq<char>
    decreases b.len(),
{
    if b.len() == 0 {
        Seq::empty()
    } else {
        hex_seq(b.drop_last()) + seq![hex_digit(b.last() / 16), hex_digit(b.last() % 16)]
    }
}

/// Relies on `hex::encode`: two lowercase digits for each byte, in order.
#[verifier::external_body]
fn to_hex(b: &[u8; 8]) -> (r: String)
    ensures
        r@ == hex_seq(b@),
{
    hex::encode(b)
}

/// The eight bytes of `x`, most significant first.
pub open spec fn be_bytes(x: u64) -> Seq<u8> {
    seq![
        (x >> 56) as u8, (x >> 48) as u8, (x >> 40) as u8, (x >> 32) as u8,
        (x >> 24) as u8, (x >> 16) as u8, (x >> 8) as u8, x as u8,
    ]
}

/// The eight bytes of `x`, most significant first.
pub fn to_be_bytes(x: u64) -> (r: [u8; 8])
    ensures
        r@ == be_bytes(x),
{
    let r: [u8; 8] = [
        (x >> 56) as u8, (x >> 48) as u8, (x >> 40) as u8, (x >> 32) as u8,
        (x >> 24) as u8, (x >> 16) as u8, (x >> 8) as u8, x as u8,
    ];
    assert(r@ =~= be_bytes(x));
    r
}

/// The published commitment to a secret value.
pub open spec fn commitment_of(n: u64) -> Seq<char> {
    hex_seq(be_bytes(digest_of(n)))
}

/// Computes the commitment to `n`: sixteen lowercase hex digits.
pub fn commit_to(n: u64) -> (r: String)
    ensures
        r@ == commitment_of(n),
{
    to_hex(&to_be_bytes(digest(n)))
}

} // verus!
