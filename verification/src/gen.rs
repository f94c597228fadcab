//! Pseudo-random schema-valid instances: the executable statement of what a
//! valid record looks like. Every function here is proved to respect the
//! domain constraints of the schema — UUID-formatted identity fields,
//! non-negative bounded integers, the dotted shark storage-id pattern, and a
//! structurally valid digest encoding — whatever values the generator draws.

use vstd::prelude::*;
use crate::schema::{
    MantaObject, MantaObjectShark, ObjectType, is_uuid, is_alnum, is_digit, storage_id_split,
    is_storage_id, shark_valid, object_valid, record_valid,
};
use crate::json::{dec_u, write_u128};
use crate::trusted::{
    next_u64, rng_from_seed, v4_string_from, md5_digest, base64_encode, md5_of, base64_of,
    chars_to_string,
};
use rand::rngs::StdRng;

verus! {

broadcast use vstd::seq::group_seq_axioms;

/// The decimal digits of a non-negative number are digits.
proof fn lemma_dec_u_digits(n: int)
    requires
        n >= 0,
    ensures
        dec_u(n).len() >= 1,
        forall|i: int| 0 <= i < dec_u(n).len() ==> is_digit(#[trigger] dec_u(n)[i]),
    decreases n,
{
    if n >= 10 {
        lemma_dec_u_digits(n / 10);
    }
}

/// One alphanumeric character drawn from the generator.
fn random_alnum(g: &mut StdRng) -> (c: char)
    ensures
        is_alnum(c),
{
    let x: u64 = next_u64(g);
    let idx: u8 = (x % 62) as u8;
    let b: u8 = if idx < 26 {
        97 + idx
    } else if idx < 52 {
        65 + (idx - 26)
    } else {
        48 + (idx - 52)
    };
    b as char
}

/// An alphanumeric string of exactly `len` characters drawn from the
/// generator.
pub fn random_string(g: &mut StdRng, len: usize) -> (r: String)
    ensures
        r@.len() == len,
        forall|i: int| 0 <= i < r@.len() ==> is_alnum(#[trigger] r@[i]),
{
    let mut cs: Vec<char> = Vec::new();
    let mut i: usize = 0;
    while i < len
        invariant
            0 <= i <= len,
            cs@.len() == i,
            forall|k: int| 0 <= k < i ==> is_alnum(#[trigger] cs@[k]),
        decreases len - i,
    {
        let c: char = random_alnum(g);
        cs.push(c);
        i = i + 1;
    }
    chars_to_string(&cs)
}

/// A storage-node identifier matching the dotted three-part pattern, with
/// the given segment length and shard index.
fn random_storage_id(g: &mut StdRng, shard: u64, len: usize) -> (r: String)
    requires
        len >= 1,
    ensures
        is_storage_id(r@),
{
    let mut cs: Vec<char> = Vec::new();
    write_u128(&mut cs, shard as u128);
    proof {
        lemma_dec_u_digits(shard as int);
    }
    let dlen: usize = cs.len();
    cs.push('.');
    let mut i: usize = 0;
    while i < len
        invariant
            dlen >= 1,
            cs@.len() == dlen + 1 + i,
            0 <= i <= len,
            forall|k: int| 0 <= k < dlen ==> is_digit(#[trigger] cs@[k]),
            cs@[dlen as int] == '.',
            forall|k: int| dlen < k < cs@.len() ==> is_alnum(#[trigger] cs@[k]),
        decreases len - i,
    {
        let c: char = random_alnum(g);
        cs.push(c);
        i = i + 1;
    }
    let dot2: usize = cs.len();
    cs.push('.');
    let mut j: usize = 0;
    while j < len
        invariant
            dlen >= 1,
            dot2 == dlen + 1 + len,
            len >= 1,
            cs@.len() == dot2 + 1 + j,
            0 <= j <= len,
            forall|k: int| 0 <= k < dlen ==> is_digit(#[trigger] cs@[k]),
            cs@[dlen as int] == '.',
            forall|k: int| dlen < k < dot2 ==> is_alnum(#[trigger] cs@[k]),
            cs@[dot2 as int] == '.',
            forall|k: int| dot2 < k < cs@.len() ==> is_alnum(#[trigger] cs@[k]),
        decreases len - j,
    {
        let c: char = random_alnum(g);
        cs.push(c);
        j = j + 1;
    }
    proof {
        assert(storage_id_split(cs@, dlen as int, dot2 as int));
    }
    chars_to_string(&cs)
}

impl MantaObjectShark {
    /// A pseudo-random replica whose storage id always matches the
    /// three-part dotted pattern.
    pub fn arbitrary(g: &mut StdRng) -> (s: MantaObjectShark)
        ensures
            shark_valid(s@),
    {
        let x: u64 = next_u64(g);
        let len: usize = (1 + (x % 99)) as usize;
        let shard: u64 = len as u64;
        let msid: String = random_storage_id(g, shard, len);
        let datacenter: String = random_string(g, len);
        MantaObjectShark { datacenter, manta_storage_id: msid }
    }
}

impl MantaObject {
    /// A pseudo-random schema-valid object record: fresh UUIDs for the
    /// identity fields, non-negative bounded integers for the storage
    /// indexes, pattern-respecting sharks, and a digest-shaped checksum.
    pub fn arbitrary(g: &mut StdRng) -> (r: MantaObject)
        ensures
            object_valid(r@),
            is_uuid(r@.owner),
            is_uuid(r@.etag),
            is_uuid(r@.object_id),
            r@.mtime >= 0,
            r@.vnode >= 0,
            forall|i: int| 0 <= i < r@.sharks.len() ==> shark_valid(#[trigger] r@.sharks[i]),
            r@.sharks.len() == 2,
            r@.headers.len() == 3,
            r@.roles.len() == 1,
            exists|b: Seq<u8>| r@.content_md5 == base64_of(#[trigger] md5_of(b)),
            r@.content_md5.len() == 24,
    {
        let lx: u64 = next_u64(g);
        let len: usize = (lx % 256) as usize;

        let mut headers: Vec<(String, String)> = Vec::new();
        headers.push((random_string(g, len), random_string(g, len)));
        headers.push((random_string(g, len), random_string(g, len)));
        headers.push((random_string(g, len), random_string(g, len)));

        // These are index columns; the relational storage keeps them in a
        // signed 64-bit column, so they are drawn non-negative and below
        // that column's maximum.
        let mtime: i64 = (next_u64(g) % (i64::MAX as u64)) as i64;
        let vnode: i64 = (next_u64(g) % (i64::MAX as u64)) as i64;

        let content_length: u64 = next_u64(g);
        let key: String = random_string(g, len);
        let creator: String = random_string(g, len);
        let dirname: String = random_string(g, len);
        let name: String = random_string(g, len);
        let owner: String = v4_string_from(next_u64(g), next_u64(g));
        let mut roles: Vec<String> = Vec::new();
        roles.push(random_string(g, len));

        let seed_text: String = random_string(g, len);
        let seed_bytes: Vec<u8> = seed_text.as_str().as_bytes_vec();
        let digest: Vec<u8> = md5_digest(&seed_bytes);
        let content_md5: String = base64_encode(&digest);

        let etag: String = v4_string_from(next_u64(g), next_u64(g));
        let content_type: String = random_string(g, len);
        let object_id: String = v4_string_from(next_u64(g), next_u64(g));
        let mut sharks: Vec<MantaObjectShark> = Vec::new();
        sharks.push(MantaObjectShark::arbitrary(g));
        sharks.push(MantaObjectShark::arbitrary(g));

        let r = MantaObject {
            headers,
            key,
            mtime,
            name,
            dirname,
            creator,
            owner,
            roles,
            vnode,
            content_length,
            content_md5,
            content_type,
            object_id,
            etag,
            sharks,
        };
        proof {
            assert(r@.sharks =~= r.sharks@.map(|i: int, s: MantaObjectShark| s@));
            assert(forall|i: int|
                0 <= i < r@.sharks.len() ==> #[trigger] r@.sharks[i] == r.sharks@[i]@);
        }
        r
    }
}

/// A pseudo-random schema-valid record, deterministic in the seed: the
/// executable specification of "valid instance".
pub fn produce_random_valid(seed: u64) -> (r: ObjectType)
    ensures
        record_valid(r@),
        r@ is Object,
{
    let mut g: StdRng = rng_from_seed(seed);
    ObjectType::Object(MantaObject::arbitrary(&mut g))
}

} // verus!
