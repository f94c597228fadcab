//! The crate's trusted boundary: thin wrappers around functions of outside
//! crates and of std that vstd gives no specification to. Each wrapper's
//! contract states only what the wrapped function's documentation promises.

use vstd::prelude::*;
use crate::schema::is_uuid;

verus! {

/// Relies on str::chars: it yields the characters of the string in order.
#[verifier::external_body]
pub(crate) fn str_chars(s: &str) -> (r: Vec<char>)
    ensures
        r@ == s@,
{
    s.chars().collect()
}

/// Relies on String: collecting characters builds the string of exactly
/// those characters in order.
#[verifier::external_body]
pub(crate) fn chars_to_string(v: &Vec<char>) -> (r: String)
    ensures
        r@ == v@,
{
    v.iter().collect()
}

/// The 16-byte MD5 digest of a byte sequence, as md5::compute returns it;
/// a function of the input alone.
pub uninterp spec fn md5_of(data: Seq<u8>) -> Seq<u8>;

/// Relies on md5::compute: the digest depends on the input alone and is
/// 16 bytes long.
#[verifier::external_body]
pub(crate) fn md5_digest(data: &Vec<u8>) -> (r: Vec<u8>)
    ensures
        r@ == md5_of(data@),
        r@.len() == 16,
{
    let digest = md5::compute(data.as_slice());
    digest.0.to_vec()
}

/// The standard base64 encoding (with padding) of a byte sequence, as
/// base64::encode returns it; a function of the input alone.
pub uninterp spec fn base64_of(data: Seq<u8>) -> Seq<char>;

/// Relies on base64::encode: standard alphabet with padding, so the result
/// depends on the input alone and is four characters for every three input
/// bytes, rounded up.
#[verifier::external_body]
pub(crate) fn base64_encode(data: &Vec<u8>) -> (r: String)
    ensures
        r@ == base64_of(data@),
        r@.len() == 4 * ((data@.len() + 2) / 3),
{
    base64::encode(data.as_slice())
}

/// Relies on uuid::Builder::from_random_bytes and the Display form of
/// uuid::Uuid: a version-4 UUID laid over the given bytes, rendered in the
/// hyphenated lowercase form, five hex groups of lengths 8, 4, 4, 4 and 12.
#[verifier::external_body]
pub(crate) fn v4_string_from(hi: u64, lo: u64) -> (r: String)
    ensures
        is_uuid(r@),
{
    let mut bytes = [0u8; 16];
    bytes[..8].copy_from_slice(&hi.to_be_bytes());
    bytes[8..].copy_from_slice(&lo.to_be_bytes());
    uuid::Builder::from_random_bytes(bytes).into_uuid().to_string()
}

#[verifier::external_type_specification]
#[verifier::external_body]
pub struct ExStdRng(rand::rngs::StdRng);

/// Relies on rand::SeedableRng::seed_from_u64: a generator state derived
/// from the seed. Nothing further is promised of the state.
#[verifier::external_body]
pub(crate) fn rng_from_seed(seed: u64) -> (r: rand::rngs::StdRng)
{
    <rand::rngs::StdRng as rand::SeedableRng>::seed_from_u64(seed)
}

/// Relies on rand::RngCore::next_u64: a pseudo-random value. Nothing is
/// promised of the value, so every caller must hold for every outcome.
#[verifier::external_body]
pub(crate) fn next_u64(rng: &mut rand::rngs::StdRng) -> (r: u64)
{
    rand::RngCore::next_u64(rng)
}

} // verus!
