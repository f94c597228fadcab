//! The general properties of the codec, proved once and for all: decoding
//! the canonical document of any record yields that record back, a value
//! carried under a field's alias decodes the same as under the canonical
//! name, and the discriminant is read without regard to case.

use vstd::prelude::*;
use crate::schema::{ObjectV, DirectoryV, SharkV, RecordV, ErrV};
use crate::json::{JVal, JMemberV};
use crate::codec::{
    lookup, lookup_from, lookup2, req_str, req_i64, def_u64, def_str1, def_str2, def_str3, strings_of,
    req_roles, hdrs_of, req_headers, shark_of, sharks_of_arr, def_sharks, object_of, directory_of,
    record_of_json, eq_ic, to_lower, strs_jv, hdrs_jv, shark_jv, sharks_jv, json_of_object,
    json_of_directory, json_of_record,
};

verus! {

broadcast use {vstd::seq::group_seq_axioms, vstd::string::group_string_axioms};

// ---------------------------------------------------------------------------
// Lookup lemmas
// ---------------------------------------------------------------------------

proof fn lemma_lookup_from_shift(m: JMemberV, rest: Seq<JMemberV>, n: Seq<char>, i: int)
    requires
        0 <= i <= rest.len(),
    ensures
        lookup_from(seq![m] + rest, n, i + 1) == lookup_from(rest, n, i),
    decreases rest.len() - i,
{
    let s = seq![m] + rest;
    if i < rest.len() {
        assert(s[i + 1] == rest[i]);
        lemma_lookup_from_shift(m, rest, n, i + 1);
    }
}

proof fn lemma_lookup_cons(m: JMemberV, rest: Seq<JMemberV>, n: Seq<char>)
    ensures
        lookup(seq![m] + rest, n) == (if m.key == n {
            Some(m.val)
        } else {
            lookup(rest, n)
        }),
{
    let s = seq![m] + rest;
    assert(s[0] == m);
    lemma_lookup_from_shift(m, rest, n, 0);
}

proof fn lemma_lookup_push_from(pairs: Seq<JMemberV>, m: JMemberV, n: Seq<char>, i: int)
    requires
        0 <= i <= pairs.len(),
    ensures
        lookup_from(pairs.push(m), n, i) == (match lookup_from(pairs, n, i) {
            Some(v) => Some(v),
            None => if m.key == n {
                Some(m.val)
            } else {
                None::<JVal>
            },
        }),
    decreases pairs.len() - i,
{
    if i < pairs.len() {
        assert(pairs.push(m)[i] == pairs[i]);
        lemma_lookup_push_from(pairs, m, n, i + 1);
    } else {
        assert(pairs.push(m)[i] == m);
        assert(lookup_from(pairs.push(m), n, i + 1) is None);
    }
}

proof fn lemma_lookup_push(pairs: Seq<JMemberV>, m: JMemberV, n: Seq<char>)
    ensures
        lookup(pairs.push(m), n) == (match lookup(pairs, n) {
            Some(v) => Some(v),
            None => if m.key == n {
                Some(m.val)
            } else {
                None::<JVal>
            },
        }),
{
    lemma_lookup_push_from(pairs, m, n, 0);
}

// ---------------------------------------------------------------------------
// Round trips of the composite fields
// ---------------------------------------------------------------------------

proof fn lemma_strings_round(rs: Seq<Seq<char>>, f: Seq<char>)
    ensures
        strings_of(strs_jv(rs), f) == Ok::<Seq<Seq<char>>, ErrV>(rs),
    decreases rs.len(),
{
    if rs.len() == 0 {
        assert(strs_jv(rs).len() == 0);
        assert(rs =~= Seq::<Seq<char>>::empty());
    } else {
        lemma_strings_round(rs.drop_first(), f);
        assert(strs_jv(rs)[0] == JVal::Str(rs[0]));
        assert(strs_jv(rs).drop_first() =~= strs_jv(rs.drop_first()));
        assert(seq![rs[0]] + rs.drop_first() =~= rs);
    }
}

proof fn lemma_hdrs_round(hs: Seq<(Seq<char>, Seq<char>)>)
    ensures
        hdrs_of(hdrs_jv(hs)) == Ok::<Seq<(Seq<char>, Seq<char>)>, ErrV>(hs),
    decreases hs.len(),
{
    if hs.len() == 0 {
        assert(hdrs_jv(hs).len() == 0);
        assert(hs =~= Seq::<(Seq<char>, Seq<char>)>::empty());
    } else {
        lemma_hdrs_round(hs.drop_first());
        assert(hdrs_jv(hs)[0] == JMemberV { key: hs[0].0, val: JVal::Str(hs[0].1) });
        assert(hdrs_jv(hs).drop_first() =~= hdrs_jv(hs.drop_first()));
        assert((hs[0].0, hs[0].1) == hs[0]);
        assert(seq![hs[0]] + hs.drop_first() =~= hs);
    }
}

proof fn lemma_shark_round(s: SharkV)
    ensures
        shark_of(shark_jv(s)->Obj_0) == Ok::<SharkV, ErrV>(s),
{
    reveal_strlit("datacenter");
    reveal_strlit("manta_storage_id");
    assert("datacenter"@.len() == 10);
    assert("datacenter"@[0] == 'd');
    assert("manta_storage_id"@.len() == 16);
    assert("manta_storage_id"@[0] == 'm');
    let ms = shark_jv(s)->Obj_0;
    assert(ms.len() == 2);
    assert(ms[0] == JMemberV { key: "datacenter"@, val: JVal::Str(s.datacenter) });
    assert(ms[1] == JMemberV { key: "manta_storage_id"@, val: JVal::Str(s.manta_storage_id) });
    assert(lookup_from(ms, "datacenter"@, 0) == Some(JVal::Str(s.datacenter)));
    assert(lookup_from(ms, "manta_storage_id"@, 1) == Some(JVal::Str(s.manta_storage_id)));
    assert(lookup_from(ms, "manta_storage_id"@, 0) == Some(JVal::Str(s.manta_storage_id)));
}

proof fn lemma_sharks_round(ss: Seq<SharkV>)
    ensures
        sharks_of_arr(sharks_jv(ss)) == Ok::<Seq<SharkV>, ErrV>(ss),
    decreases ss.len(),
{
    if ss.len() == 0 {
        assert(sharks_jv(ss).len() == 0);
        assert(ss =~= Seq::<SharkV>::empty());
    } else {
        lemma_sharks_round(ss.drop_first());
        assert(sharks_jv(ss)[0] == shark_jv(ss[0]));
        lemma_shark_round(ss[0]);
        assert(sharks_jv(ss).drop_first() =~= sharks_jv(ss.drop_first()));
        assert(seq![ss[0]] + ss.drop_first() =~= ss);
    }
}

// ---------------------------------------------------------------------------
// The record round trip
// ---------------------------------------------------------------------------

/// The integer fields of a record fit the storage columns: this holds of
/// the view of every executable record by construction.
pub open spec fn object_wf(o: ObjectV) -> bool {
    &&& -0x8000_0000_0000_0000 <= o.mtime <= 0x7fff_ffff_ffff_ffff
    &&& -0x8000_0000_0000_0000 <= o.vnode <= 0x7fff_ffff_ffff_ffff
    &&& 0 <= o.content_length <= 0xffff_ffff_ffff_ffff
}

pub open spec fn directory_wf(d: DirectoryV) -> bool {
    &&& -0x8000_0000_0000_0000 <= d.mtime <= 0x7fff_ffff_ffff_ffff
    &&& -0x8000_0000_0000_0000 <= d.vnode <= 0x7fff_ffff_ffff_ffff
}

pub open spec fn record_wf(r: RecordV) -> bool {
    match r {
        RecordV::Object(o) => object_wf(o),
        RecordV::Directory(d) => directory_wf(d),
    }
}

/// Decoding the canonical document of an object record yields the record.
#[verifier::rlimit(100)]
pub proof fn lemma_object_round_trip(o: ObjectV)
    requires
        object_wf(o),
    ensures
        record_of_json(json_of_object(o)) == Ok::<RecordV, ErrV>(RecordV::Object(o)),
{
    reveal_strlit("type");
    reveal_strlit("object");
    reveal_strlit("directory");
    reveal_strlit("headers");
    reveal_strlit("key");
    reveal_strlit("mtime");
    reveal_strlit("name");
    reveal_strlit("creator");
    reveal_strlit("dirname");
    reveal_strlit("owner");
    reveal_strlit("roles");
    reveal_strlit("vnode");
    reveal_strlit("contentLength");
    reveal_strlit("content_length");
    reveal_strlit("contentMd5");
    reveal_strlit("contentMD5");
    reveal_strlit("content_md5");
    reveal_strlit("contentType");
    reveal_strlit("content_type");
    reveal_strlit("objectId");
    reveal_strlit("object_id");
    reveal_strlit("etag");
    reveal_strlit("sharks");
    reveal_strlit("datacenter");
    reveal_strlit("manta_storage_id");
    assert("type"@.len() == 4);
    assert("type"@[0] == 't');
    assert("object"@.len() == 6);
    assert("object"@[0] == 'o');
    assert("directory"@.len() == 9);
    assert("directory"@[0] == 'd');
    assert("headers"@.len() == 7);
    assert("headers"@[0] == 'h');
    assert("key"@.len() == 3);
    assert("key"@[0] == 'k');
    assert("mtime"@.len() == 5);
    assert("mtime"@[0] == 'm');
    assert("name"@.len() == 4);
    assert("name"@[0] == 'n');
    assert("creator"@.len() == 7);
    assert("creator"@[0] == 'c');
    assert("dirname"@.len() == 7);
    assert("dirname"@[0] == 'd');
    assert("owner"@.len() == 5);
    assert("owner"@[0] == 'o');
    assert("roles"@.len() == 5);
    assert("roles"@[0] == 'r');
    assert("vnode"@.len() == 5);
    assert("vnode"@[0] == 'v');
    assert("contentLength"@.len() == 13);
    assert("contentLength"@[0] == 'c');
    assert("content_length"@.len() == 14);
    assert("content_length"@[0] == 'c');
    assert("contentMd5"@.len() == 10);
    assert("contentMd5"@[0] == 'c');
    assert("contentMd5"@[8] == 'd');
    assert("contentMD5"@.len() == 10);
    assert("contentMD5"@[0] == 'c');
    assert("contentMD5"@[8] == 'D');
    assert("content_md5"@.len() == 11);
    assert("content_md5"@[0] == 'c');
    assert("content_md5"@[7] == '_');
    assert("contentType"@.len() == 11);
    assert("contentType"@[0] == 'c');
    assert("contentType"@[7] == 'T');
    assert("content_type"@.len() == 12);
    assert("content_type"@[0] == 'c');
    assert("objectId"@.len() == 8);
    assert("objectId"@[0] == 'o');
    assert("object_id"@.len() == 9);
    assert("object_id"@[0] == 'o');
    assert("etag"@.len() == 4);
    assert("etag"@[0] == 'e');
    assert("sharks"@.len() == 6);
    assert("sharks"@[0] == 's');
    assert("datacenter"@.len() == 10);
    assert("datacenter"@[0] == 'd');
    assert("manta_storage_id"@.len() == 16);
    assert("manta_storage_id"@[0] == 'm');
    let pairs = json_of_object(o)->Obj_0;
    lemma_hdrs_round(o.headers);
    lemma_strings_round(o.roles, "roles"@);
    lemma_sharks_round(o.sharks);
    assert(pairs.len() == 16);
    reveal_with_fuel(lookup_from, 18);
    assert(lookup(pairs, "type"@) == Some(JVal::Str("object"@)));
    assert(eq_ic("object"@, "object"@));
    assert(req_headers(pairs) == Ok::<Seq<(Seq<char>, Seq<char>)>, ErrV>(o.headers));
    assert(req_str(pairs, "key"@) == Ok::<Seq<char>, ErrV>(o.key));
    assert(req_i64(pairs, "mtime"@) == Ok::<int, ErrV>(o.mtime));
    assert(req_str(pairs, "name"@) == Ok::<Seq<char>, ErrV>(o.name));
    assert(req_str(pairs, "creator"@) == Ok::<Seq<char>, ErrV>(o.creator));
    assert(req_str(pairs, "dirname"@) == Ok::<Seq<char>, ErrV>(o.dirname));
    assert(req_str(pairs, "owner"@) == Ok::<Seq<char>, ErrV>(o.owner));
    assert(req_roles(pairs) == Ok::<Seq<Seq<char>>, ErrV>(o.roles));
    assert(req_i64(pairs, "vnode"@) == Ok::<int, ErrV>(o.vnode));
    assert(def_u64(pairs, "contentLength"@, "content_length"@) == Ok::<int, ErrV>(
        o.content_length,
    ));
    assert(def_str3(pairs, "contentMd5"@, "contentMD5"@, "content_md5"@) == Ok::<Seq<char>, ErrV>(
        o.content_md5,
    ));
    assert(def_str2(pairs, "contentType"@, "content_type"@) == Ok::<Seq<char>, ErrV>(
        o.content_type,
    ));
    assert(def_str2(pairs, "objectId"@, "object_id"@) == Ok::<Seq<char>, ErrV>(o.object_id));
    assert(def_str1(pairs, "etag"@) == Ok::<Seq<char>, ErrV>(o.etag));
    assert(def_sharks(pairs) == Ok::<Seq<SharkV>, ErrV>(o.sharks));
    assert(object_of(pairs) == Ok::<ObjectV, ErrV>(o));
}

/// Decoding the canonical document of a directory record yields the record.
#[verifier::rlimit(100)]
pub proof fn lemma_directory_round_trip(d: DirectoryV)
    requires
        directory_wf(d),
    ensures
        record_of_json(json_of_directory(d)) == Ok::<RecordV, ErrV>(RecordV::Directory(d)),
{
    reveal_strlit("type");
    reveal_strlit("object");
    reveal_strlit("directory");
    reveal_strlit("headers");
    reveal_strlit("key");
    reveal_strlit("mtime");
    reveal_strlit("name");
    reveal_strlit("creator");
    reveal_strlit("dirname");
    reveal_strlit("owner");
    reveal_strlit("roles");
    reveal_strlit("vnode");
    reveal_strlit("contentLength");
    reveal_strlit("content_length");
    reveal_strlit("contentMd5");
    reveal_strlit("contentMD5");
    reveal_strlit("content_md5");
    reveal_strlit("contentType");
    reveal_strlit("content_type");
    reveal_strlit("objectId");
    reveal_strlit("object_id");
    reveal_strlit("etag");
    reveal_strlit("sharks");
    reveal_strlit("datacenter");
    reveal_strlit("manta_storage_id");
    assert("type"@.len() == 4);
    assert("type"@[0] == 't');
    assert("object"@.len() == 6);
    assert("object"@[0] == 'o');
    assert("directory"@.len() == 9);
    assert("directory"@[0] == 'd');
    assert("headers"@.len() == 7);
    assert("headers"@[0] == 'h');
    assert("key"@.len() == 3);
    assert("key"@[0] == 'k');
    assert("mtime"@.len() == 5);
    assert("mtime"@[0] == 'm');
    assert("name"@.len() == 4);
    assert("name"@[0] == 'n');
    assert("creator"@.len() == 7);
    assert("creator"@[0] == 'c');
    assert("dirname"@.len() == 7);
    assert("dirname"@[0] == 'd');
    assert("owner"@.len() == 5);
    assert("owner"@[0] == 'o');
    assert("roles"@.len() == 5);
    assert("roles"@[0] == 'r');
    assert("vnode"@.len() == 5);
    assert("vnode"@[0] == 'v');
    assert("contentLength"@.len() == 13);
    assert("contentLength"@[0] == 'c');
    assert("content_length"@.len() == 14);
    assert("content_length"@[0] == 'c');
    assert("contentMd5"@.len() == 10);
    assert("contentMd5"@[0] == 'c');
    assert("contentMd5"@[8] == 'd');
    assert("contentMD5"@.len() == 10);
    assert("contentMD5"@[0] == 'c');
    assert("contentMD5"@[8] == 'D');
    assert("content_md5"@.len() == 11);
    assert("content_md5"@[0] == 'c');
    assert("content_md5"@[7] == '_');
    assert("contentType"@.len() == 11);
    assert("contentType"@[0] == 'c');
    assert("contentType"@[7] == 'T');
    assert("content_type"@.len() == 12);
    assert("content_type"@[0] == 'c');
    assert("objectId"@.len() == 8);
    assert("objectId"@[0] == 'o');
    assert("object_id"@.len() == 9);
    assert("object_id"@[0] == 'o');
    assert("etag"@.len() == 4);
    assert("etag"@[0] == 'e');
    assert("sharks"@.len() == 6);
    assert("sharks"@[0] == 's');
    assert("datacenter"@.len() == 10);
    assert("datacenter"@[0] == 'd');
    assert("manta_storage_id"@.len() == 16);
    assert("manta_storage_id"@[0] == 'm');
    let pairs = json_of_directory(d)->Obj_0;
    lemma_hdrs_round(d.headers);
    lemma_strings_round(d.roles, "roles"@);
    assert(pairs.len() == 10);
    reveal_with_fuel(lookup_from, 12);
    assert(lookup(pairs, "type"@) == Some(JVal::Str("directory"@)));
    assert(!eq_ic("directory"@, "object"@));
    assert(eq_ic("directory"@, "directory"@));
    assert(req_str(pairs, "creator"@) == Ok::<Seq<char>, ErrV>(d.creator));
    assert(req_str(pairs, "dirname"@) == Ok::<Seq<char>, ErrV>(d.dirname));
    assert(req_headers(pairs) == Ok::<Seq<(Seq<char>, Seq<char>)>, ErrV>(d.headers));
    assert(req_str(pairs, "key"@) == Ok::<Seq<char>, ErrV>(d.key));
    assert(req_i64(pairs, "mtime"@) == Ok::<int, ErrV>(d.mtime));
    assert(req_str(pairs, "name"@) == Ok::<Seq<char>, ErrV>(d.name));
    assert(req_str(pairs, "owner"@) == Ok::<Seq<char>, ErrV>(d.owner));
    assert(req_roles(pairs) == Ok::<Seq<Seq<char>>, ErrV>(d.roles));
    assert(req_i64(pairs, "vnode"@) == Ok::<int, ErrV>(d.vnode));
    assert(directory_of(pairs) == Ok::<DirectoryV, ErrV>(d));
}

/// Round trip at the document level: reading back the canonical document
/// of any record, object or directory, yields exactly that record.
pub proof fn lemma_record_round_trip(r: RecordV)
    requires
        record_wf(r),
    ensures
        record_of_json(json_of_record(r)) == Ok::<RecordV, ErrV>(r),
{
    match r {
        RecordV::Object(o) => lemma_object_round_trip(o),
        RecordV::Directory(d) => lemma_directory_round_trip(d),
    }
}

// ---------------------------------------------------------------------------
// Alias equivalence
// ---------------------------------------------------------------------------

/// A record whose content length arrives under the alias decodes exactly
/// as one that carries the same value under the canonical name; and with
/// the field omitted entirely, the default zero is read.
#[verifier::rlimit(100)]
pub proof fn lemma_content_length_alias(pairs: Seq<JMemberV>, n: JVal)
    requires
        lookup(pairs, "contentLength"@) is None,
        lookup(pairs, "content_length"@) is None,
    ensures
        object_of(pairs.push(JMemberV { key: "contentLength"@, val: n })) == object_of(
            pairs.push(JMemberV { key: "content_length"@, val: n }),
        ),
        def_u64(pairs, "contentLength"@, "content_length"@) == Ok::<int, ErrV>(0),
{
    reveal_strlit("type");
    reveal_strlit("object");
    reveal_strlit("directory");
    reveal_strlit("headers");
    reveal_strlit("key");
    reveal_strlit("mtime");
    reveal_strlit("name");
    reveal_strlit("creator");
    reveal_strlit("dirname");
    reveal_strlit("owner");
    reveal_strlit("roles");
    reveal_strlit("vnode");
    reveal_strlit("contentLength");
    reveal_strlit("content_length");
    reveal_strlit("contentMd5");
    reveal_strlit("contentMD5");
    reveal_strlit("content_md5");
    reveal_strlit("contentType");
    reveal_strlit("content_type");
    reveal_strlit("objectId");
    reveal_strlit("object_id");
    reveal_strlit("etag");
    reveal_strlit("sharks");
    reveal_strlit("datacenter");
    reveal_strlit("manta_storage_id");
    assert("type"@.len() == 4);
    assert("type"@[0] == 't');
    assert("object"@.len() == 6);
    assert("object"@[0] == 'o');
    assert("directory"@.len() == 9);
    assert("directory"@[0] == 'd');
    assert("headers"@.len() == 7);
    assert("headers"@[0] == 'h');
    assert("key"@.len() == 3);
    assert("key"@[0] == 'k');
    assert("mtime"@.len() == 5);
    assert("mtime"@[0] == 'm');
    assert("name"@.len() == 4);
    assert("name"@[0] == 'n');
    assert("creator"@.len() == 7);
    assert("creator"@[0] == 'c');
    assert("dirname"@.len() == 7);
    assert("dirname"@[0] == 'd');
    assert("owner"@.len() == 5);
    assert("owner"@[0] == 'o');
    assert("roles"@.len() == 5);
    assert("roles"@[0] == 'r');
    assert("vnode"@.len() == 5);
    assert("vnode"@[0] == 'v');
    assert("contentLength"@.len() == 13);
    assert("contentLength"@[0] == 'c');
    assert("content_length"@.len() == 14);
    assert("content_length"@[0] == 'c');
    assert("contentMd5"@.len() == 10);
    assert("contentMd5"@[0] == 'c');
    assert("contentMd5"@[8] == 'd');
    assert("contentMD5"@.len() == 10);
    assert("contentMD5"@[0] == 'c');
    assert("contentMD5"@[8] == 'D');
    assert("content_md5"@.len() == 11);
    assert("content_md5"@[0] == 'c');
    assert("content_md5"@[7] == '_');
    assert("contentType"@.len() == 11);
    assert("contentType"@[0] == 'c');
    assert("contentType"@[7] == 'T');
    assert("content_type"@.len() == 12);
    assert("content_type"@[0] == 'c');
    assert("objectId"@.len() == 8);
    assert("objectId"@[0] == 'o');
    assert("object_id"@.len() == 9);
    assert("object_id"@[0] == 'o');
    assert("etag"@.len() == 4);
    assert("etag"@[0] == 'e');
    assert("sharks"@.len() == 6);
    assert("sharks"@[0] == 's');
    assert("datacenter"@.len() == 10);
    assert("datacenter"@[0] == 'd');
    assert("manta_storage_id"@.len() == 16);
    assert("manta_storage_id"@[0] == 'm');
    let ca = JMemberV { key: "contentLength"@, val: n };
    let sa = JMemberV { key: "content_length"@, val: n };
    let pa = pairs.push(ca);
    let pb = pairs.push(sa);
    lemma_lookup_push(pairs, ca, "contentLength"@);
    lemma_lookup_push(pairs, ca, "content_length"@);
    lemma_lookup_push(pairs, sa, "contentLength"@);
    lemma_lookup_push(pairs, sa, "content_length"@);
    lemma_lookup_push(pairs, ca, "headers"@);
    lemma_lookup_push(pairs, sa, "headers"@);
    lemma_lookup_push(pairs, ca, "key"@);
    lemma_lookup_push(pairs, sa, "key"@);
    lemma_lookup_push(pairs, ca, "mtime"@);
    lemma_lookup_push(pairs, sa, "mtime"@);
    lemma_lookup_push(pairs, ca, "name"@);
    lemma_lookup_push(pairs, sa, "name"@);
    lemma_lookup_push(pairs, ca, "creator"@);
    lemma_lookup_push(pairs, sa, "creator"@);
    lemma_lookup_push(pairs, ca, "dirname"@);
    lemma_lookup_push(pairs, sa, "dirname"@);
    lemma_lookup_push(pairs, ca, "owner"@);
    lemma_lookup_push(pairs, sa, "owner"@);
    lemma_lookup_push(pairs, ca, "roles"@);
    lemma_lookup_push(pairs, sa, "roles"@);
    lemma_lookup_push(pairs, ca, "vnode"@);
    lemma_lookup_push(pairs, sa, "vnode"@);
    lemma_lookup_push(pairs, ca, "contentMd5"@);
    lemma_lookup_push(pairs, sa, "contentMd5"@);
    lemma_lookup_push(pairs, ca, "contentMD5"@);
    lemma_lookup_push(pairs, sa, "contentMD5"@);
    lemma_lookup_push(pairs, ca, "content_md5"@);
    lemma_lookup_push(pairs, sa, "content_md5"@);
    lemma_lookup_push(pairs, ca, "contentType"@);
    lemma_lookup_push(pairs, sa, "contentType"@);
    lemma_lookup_push(pairs, ca, "content_type"@);
    lemma_lookup_push(pairs, sa, "content_type"@);
    lemma_lookup_push(pairs, ca, "objectId"@);
    lemma_lookup_push(pairs, sa, "objectId"@);
    lemma_lookup_push(pairs, ca, "object_id"@);
    lemma_lookup_push(pairs, sa, "object_id"@);
    lemma_lookup_push(pairs, ca, "etag"@);
    lemma_lookup_push(pairs, sa, "etag"@);
    lemma_lookup_push(pairs, ca, "sharks"@);
    lemma_lookup_push(pairs, sa, "sharks"@);
    assert(lookup2(pa, "contentLength"@, "content_length"@) == Some(n));
    assert(lookup2(pb, "contentLength"@, "content_length"@) == Some(n));
    assert(def_u64(pa, "contentLength"@, "content_length"@) == def_u64(
        pb,
        "contentLength"@,
        "content_length"@,
    ));
    assert(req_headers(pa) == req_headers(pb));
    assert(req_str(pa, "key"@) == req_str(pb, "key"@));
    assert(req_i64(pa, "mtime"@) == req_i64(pb, "mtime"@));
    assert(req_str(pa, "name"@) == req_str(pb, "name"@));
    assert(req_str(pa, "creator"@) == req_str(pb, "creator"@));
    assert(req_str(pa, "dirname"@) == req_str(pb, "dirname"@));
    assert(req_str(pa, "owner"@) == req_str(pb, "owner"@));
    assert(req_roles(pa) == req_roles(pb));
    assert(req_i64(pa, "vnode"@) == req_i64(pb, "vnode"@));
    assert(def_str3(pa, "contentMd5"@, "contentMD5"@, "content_md5"@) == def_str3(
        pb,
        "contentMd5"@,
        "contentMD5"@,
        "content_md5"@,
    ));
    assert(def_str2(pa, "contentType"@, "content_type"@) == def_str2(
        pb,
        "contentType"@,
        "content_type"@,
    ));
    assert(def_str2(pa, "objectId"@, "object_id"@) == def_str2(pb, "objectId"@, "object_id"@));
    assert(def_str1(pa, "etag"@) == def_str1(pb, "etag"@));
    assert(def_sharks(pa) == def_sharks(pb));
}

// ---------------------------------------------------------------------------
// Discriminant case-insensitivity
// ---------------------------------------------------------------------------

proof fn lemma_eq_ic_same(a: Seq<char>, b: Seq<char>, c: Seq<char>)
    requires
        eq_ic(a, b),
    ensures
        eq_ic(a, c) == eq_ic(b, c),
{
    if eq_ic(a, c) {
        assert forall|i: int| 0 <= i < b.len() implies to_lower(b[i]) == to_lower(#[trigger] c[i]) by {
            assert(to_lower(a[i]) == to_lower(b[i]));
            assert(to_lower(a[i]) == to_lower(c[i]));
        }
    }
    if eq_ic(b, c) {
        assert forall|i: int| 0 <= i < a.len() implies to_lower(a[i]) == to_lower(#[trigger] c[i]) by {
            assert(to_lower(a[i]) == to_lower(b[i]));
            assert(to_lower(b[i]) == to_lower(c[i]));
        }
    }
}

/// Two spellings of the discriminant that differ only in case decode to
/// equal records, whatever the rest of the payload holds.
#[verifier::rlimit(100)]
pub proof fn lemma_discriminant_case_insensitive(rest: Seq<JMemberV>, a: Seq<char>, b: Seq<char>)
    requires
        eq_ic(a, b),
    ensures
        record_of_json(JVal::Obj(seq![JMemberV { key: "type"@, val: JVal::Str(a) }] + rest))
            == record_of_json(JVal::Obj(seq![JMemberV { key: "type"@, val: JVal::Str(b) }] + rest)),
{
    reveal_strlit("type");
    reveal_strlit("object");
    reveal_strlit("directory");
    reveal_strlit("headers");
    reveal_strlit("key");
    reveal_strlit("mtime");
    reveal_strlit("name");
    reveal_strlit("creator");
    reveal_strlit("dirname");
    reveal_strlit("owner");
    reveal_strlit("roles");
    reveal_strlit("vnode");
    reveal_strlit("contentLength");
    reveal_strlit("content_length");
    reveal_strlit("contentMd5");
    reveal_strlit("contentMD5");
    reveal_strlit("content_md5");
    reveal_strlit("contentType");
    reveal_strlit("content_type");
    reveal_strlit("objectId");
    reveal_strlit("object_id");
    reveal_strlit("etag");
    reveal_strlit("sharks");
    reveal_strlit("datacenter");
    reveal_strlit("manta_storage_id");
    assert("type"@.len() == 4);
    assert("type"@[0] == 't');
    assert("object"@.len() == 6);
    assert("object"@[0] == 'o');
    assert("directory"@.len() == 9);
    assert("directory"@[0] == 'd');
    assert("headers"@.len() == 7);
    assert("headers"@[0] == 'h');
    assert("key"@.len() == 3);
    assert("key"@[0] == 'k');
    assert("mtime"@.len() == 5);
    assert("mtime"@[0] == 'm');
    assert("name"@.len() == 4);
    assert("name"@[0] == 'n');
    assert("creator"@.len() == 7);
    assert("creator"@[0] == 'c');
    assert("dirname"@.len() == 7);
    assert("dirname"@[0] == 'd');
    assert("owner"@.len() == 5);
    assert("owner"@[0] == 'o');
    assert("roles"@.len() == 5);
    assert("roles"@[0] == 'r');
    assert("vnode"@.len() == 5);
    assert("vnode"@[0] == 'v');
    assert("contentLength"@.len() == 13);
    assert("contentLength"@[0] == 'c');
    assert("content_length"@.len() == 14);
    assert("content_length"@[0] == 'c');
    assert("contentMd5"@.len() == 10);
    assert("contentMd5"@[0] == 'c');
    assert("contentMd5"@[8] == 'd');
    assert("contentMD5"@.len() == 10);
    assert("contentMD5"@[0] == 'c');
    assert("contentMD5"@[8] == 'D');
    assert("content_md5"@.len() == 11);
    assert("content_md5"@[0] == 'c');
    assert("content_md5"@[7] == '_');
    assert("contentType"@.len() == 11);
    assert("contentType"@[0] == 'c');
    assert("contentType"@[7] == 'T');
    assert("content_type"@.len() == 12);
    assert("content_type"@[0] == 'c');
    assert("objectId"@.len() == 8);
    assert("objectId"@[0] == 'o');
    assert("object_id"@.len() == 9);
    assert("object_id"@[0] == 'o');
    assert("etag"@.len() == 4);
    assert("etag"@[0] == 'e');
    assert("sharks"@.len() == 6);
    assert("sharks"@[0] == 's');
    assert("datacenter"@.len() == 10);
    assert("datacenter"@[0] == 'd');
    assert("manta_storage_id"@.len() == 16);
    assert("manta_storage_id"@[0] == 'm');
    let ta = JMemberV { key: "type"@, val: JVal::Str(a) };
    let tb = JMemberV { key: "type"@, val: JVal::Str(b) };
    let pa = seq![ta] + rest;
    let pb = seq![tb] + rest;
    lemma_lookup_cons(ta, rest, "type"@);
    lemma_lookup_cons(tb, rest, "type"@);
    lemma_lookup_cons(ta, rest, "headers"@);
    lemma_lookup_cons(tb, rest, "headers"@);
    lemma_lookup_cons(ta, rest, "key"@);
    lemma_lookup_cons(tb, rest, "key"@);
    lemma_lookup_cons(ta, rest, "mtime"@);
    lemma_lookup_cons(tb, rest, "mtime"@);
    lemma_lookup_cons(ta, rest, "name"@);
    lemma_lookup_cons(tb, rest, "name"@);
    lemma_lookup_cons(ta, rest, "creator"@);
    lemma_lookup_cons(tb, rest, "creator"@);
    lemma_lookup_cons(ta, rest, "dirname"@);
    lemma_lookup_cons(tb, rest, "dirname"@);
    lemma_lookup_cons(ta, rest, "owner"@);
    lemma_lookup_cons(tb, rest, "owner"@);
    lemma_lookup_cons(ta, rest, "roles"@);
    lemma_lookup_cons(tb, rest, "roles"@);
    lemma_lookup_cons(ta, rest, "vnode"@);
    lemma_lookup_cons(tb, rest, "vnode"@);
    lemma_lookup_cons(ta, rest, "contentLength"@);
    lemma_lookup_cons(tb, rest, "contentLength"@);
    lemma_lookup_cons(ta, rest, "content_length"@);
    lemma_lookup_cons(tb, rest, "content_length"@);
    lemma_lookup_cons(ta, rest, "contentMd5"@);
    lemma_lookup_cons(tb, rest, "contentMd5"@);
    lemma_lookup_cons(ta, rest, "contentMD5"@);
    lemma_lookup_cons(tb, rest, "contentMD5"@);
    lemma_lookup_cons(ta, rest, "content_md5"@);
    lemma_lookup_cons(tb, rest, "content_md5"@);
    lemma_lookup_cons(ta, rest, "contentType"@);
    lemma_lookup_cons(tb, rest, "contentType"@);
    lemma_lookup_cons(ta, rest, "content_type"@);
    lemma_lookup_cons(tb, rest, "content_type"@);
    lemma_lookup_cons(ta, rest, "objectId"@);
    lemma_lookup_cons(tb, rest, "objectId"@);
    lemma_lookup_cons(ta, rest, "object_id"@);
    lemma_lookup_cons(tb, rest, "object_id"@);
    lemma_lookup_cons(ta, rest, "etag"@);
    lemma_lookup_cons(tb, rest, "etag"@);
    lemma_lookup_cons(ta, rest, "sharks"@);
    lemma_lookup_cons(tb, rest, "sharks"@);
    lemma_eq_ic_same(a, b, "object"@);
    lemma_eq_ic_same(a, b, "directory"@);
    assert(req_headers(pa) == req_headers(pb));
    assert(req_str(pa, "key"@) == req_str(pb, "key"@));
    assert(req_i64(pa, "mtime"@) == req_i64(pb, "mtime"@));
    assert(req_str(pa, "name"@) == req_str(pb, "name"@));
    assert(req_str(pa, "creator"@) == req_str(pb, "creator"@));
    assert(req_str(pa, "dirname"@) == req_str(pb, "dirname"@));
    assert(req_str(pa, "owner"@) == req_str(pb, "owner"@));
    assert(req_roles(pa) == req_roles(pb));
    assert(req_i64(pa, "vnode"@) == req_i64(pb, "vnode"@));
    assert(def_u64(pa, "contentLength"@, "content_length"@) == def_u64(
        pb,
        "contentLength"@,
        "content_length"@,
    ));
    assert(def_str3(pa, "contentMd5"@, "contentMD5"@, "content_md5"@) == def_str3(
        pb,
        "contentMd5"@,
        "contentMD5"@,
        "content_md5"@,
    ));
    assert(def_str2(pa, "contentType"@, "content_type"@) == def_str2(
        pb,
        "contentType"@,
        "content_type"@,
    ));
    assert(def_str2(pa, "objectId"@, "object_id"@) == def_str2(pb, "objectId"@, "object_id"@));
    assert(def_str1(pa, "etag"@) == def_str1(pb, "etag"@));
    assert(def_sharks(pa) == def_sharks(pb));
    assert(object_of(pa) == object_of(pb));
    assert(directory_of(pa) == directory_of(pb));
}

} // verus!
