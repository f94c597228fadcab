//! The mapping between records and their textual encoding: which external
//! name each field is written under, which legacy aliases are still read,
//! which fields are defaulted, and the two public directions `encode` and
//! `decode`, together with the storage-text adapter built on them.

use vstd::prelude::*;
use crate::schema::{
    MantaObject, MantaDirectory, MantaObjectShark, ObjectType, SchemaError, CodecError, ObjectV,
    DirectoryV, SharkV, RecordV, ErrV,
};
use crate::json::{Json, JVal, JMember, JMemberV, jseq_view, jpairs_view, jview, print_jval};
use crate::parse::{sp_json, parse_json};

verus! {

broadcast use vstd::seq::group_seq_axioms;

// ---------------------------------------------------------------------------
// Field lookup by external name, with alias fallback
// ---------------------------------------------------------------------------

/// The value under `name` among the members from position `i` on.
pub open spec fn lookup_from(pairs: Seq<JMemberV>, name: Seq<char>, i: int) -> Option<JVal>
    decreases pairs.len() - i,
{
    if i < 0 || i >= pairs.len() {
        None
    } else if pairs[i].key == name {
        Some(pairs[i].val)
    } else {
        lookup_from(pairs, name, i + 1)
    }
}

/// The value under `name` in an object's members: the first member whose
/// key is `name`.
pub open spec fn lookup(pairs: Seq<JMemberV>, name: Seq<char>) -> Option<JVal> {
    lookup_from(pairs, name, 0)
}

/// The canonical name first, then one alias.
pub open spec fn lookup2(pairs: Seq<JMemberV>, a: Seq<char>, b: Seq<char>) -> Option<JVal> {
    match lookup(pairs, a) {
        Some(v) => Some(v),
        None => lookup(pairs, b),
    }
}

/// The canonical name first, then two aliases in order.
pub open spec fn lookup3(pairs: Seq<JMemberV>, a: Seq<char>, b: Seq<char>, c: Seq<char>) -> Option<
    JVal,
> {
    match lookup2(pairs, a, b) {
        Some(v) => Some(v),
        None => lookup(pairs, c),
    }
}

// ---------------------------------------------------------------------------
// Field extraction
// ---------------------------------------------------------------------------

/// A required string field.
pub open spec fn req_str(pairs: Seq<JMemberV>, name: Seq<char>) -> Result<Seq<char>, ErrV> {
    match lookup(pairs, name) {
        None => Err(ErrV::MissingField { field: name }),
        Some(JVal::Str(t)) => Ok(t),
        Some(_) => Err(ErrV::TypeMismatch { field: name, expected: "string"@ }),
    }
}

/// A required signed 64-bit integer field.
pub open spec fn req_i64(pairs: Seq<JMemberV>, name: Seq<char>) -> Result<int, ErrV> {
    match lookup(pairs, name) {
        None => Err(ErrV::MissingField { field: name }),
        Some(JVal::Num(n)) => if -0x8000_0000_0000_0000 <= n <= 0x7fff_ffff_ffff_ffff {
            Ok(n)
        } else {
            Err(ErrV::TypeMismatch { field: name, expected: "signed 64-bit integer"@ })
        },
        Some(_) => Err(ErrV::TypeMismatch { field: name, expected: "signed 64-bit integer"@ }),
    }
}

/// An unsigned 64-bit field, defaulted to zero, read under the canonical
/// name or one alias.
pub open spec fn def_u64(pairs: Seq<JMemberV>, a: Seq<char>, b: Seq<char>) -> Result<int, ErrV> {
    match lookup2(pairs, a, b) {
        None => Ok(0),
        Some(JVal::Num(n)) => if 0 <= n <= 0xffff_ffff_ffff_ffff {
            Ok(n)
        } else {
            Err(ErrV::TypeMismatch { field: a, expected: "unsigned 64-bit integer"@ })
        },
        Some(_) => Err(ErrV::TypeMismatch { field: a, expected: "unsigned 64-bit integer"@ }),
    }
}

/// A string field defaulted to the empty string, under one name.
pub open spec fn def_str1(pairs: Seq<JMemberV>, a: Seq<char>) -> Result<Seq<char>, ErrV> {
    match lookup(pairs, a) {
        None => Ok(Seq::empty()),
        Some(JVal::Str(t)) => Ok(t),
        Some(_) => Err(ErrV::TypeMismatch { field: a, expected: "string"@ }),
    }
}

/// A defaulted string field with one alias.
pub open spec fn def_str2(pairs: Seq<JMemberV>, a: Seq<char>, b: Seq<char>) -> Result<
    Seq<char>,
    ErrV,
> {
    match lookup2(pairs, a, b) {
        None => Ok(Seq::empty()),
        Some(JVal::Str(t)) => Ok(t),
        Some(_) => Err(ErrV::TypeMismatch { field: a, expected: "string"@ }),
    }
}

/// A defaulted string field with two aliases.
pub open spec fn def_str3(pairs: Seq<JMemberV>, a: Seq<char>, b: Seq<char>, c: Seq<char>) -> Result<
    Seq<char>,
    ErrV,
> {
    match lookup3(pairs, a, b, c) {
        None => Ok(Seq::empty()),
        Some(JVal::Str(t)) => Ok(t),
        Some(_) => Err(ErrV::TypeMismatch { field: a, expected: "string"@ }),
    }
}

/// An array whose elements must all be strings.
pub open spec fn strings_of(a: Seq<JVal>, field: Seq<char>) -> Result<Seq<Seq<char>>, ErrV>
    decreases a.len(),
{
    if a.len() == 0 {
        Ok(Seq::empty())
    } else {
        match a[0] {
            JVal::Str(t) => match strings_of(a.drop_first(), field) {
                Ok(rest) => Ok(seq![t] + rest),
                Err(e) => Err(e),
            },
            _ => Err(ErrV::TypeMismatch { field, expected: "array of strings"@ }),
        }
    }
}

/// The required `roles` field: an array of strings.
pub open spec fn req_roles(pairs: Seq<JMemberV>) -> Result<Seq<Seq<char>>, ErrV> {
    match lookup(pairs, "roles"@) {
        None => Err(ErrV::MissingField { field: "roles"@ }),
        Some(JVal::Arr(a)) => strings_of(a, "roles"@),
        Some(_) => Err(ErrV::TypeMismatch { field: "roles"@, expected: "array of strings"@ }),
    }
}

/// An object all of whose member values must be strings.
pub open spec fn hdrs_of(ms: Seq<JMemberV>) -> Result<Seq<(Seq<char>, Seq<char>)>, ErrV>
    decreases ms.len(),
{
    if ms.len() == 0 {
        Ok(Seq::empty())
    } else {
        match ms[0].val {
            JVal::Str(t) => match hdrs_of(ms.drop_first()) {
                Ok(rest) => Ok(seq![(ms[0].key, t)] + rest),
                Err(e) => Err(e),
            },
            _ => Err(
                ErrV::TypeMismatch { field: "headers"@, expected: "object of string values"@ },
            ),
        }
    }
}

/// The required `headers` field: a key-to-string mapping.
pub open spec fn req_headers(pairs: Seq<JMemberV>) -> Result<Seq<(Seq<char>, Seq<char>)>, ErrV> {
    match lookup(pairs, "headers"@) {
        None => Err(ErrV::MissingField { field: "headers"@ }),
        Some(JVal::Obj(ms)) => hdrs_of(ms),
        Some(_) => Err(
            ErrV::TypeMismatch { field: "headers"@, expected: "object of string values"@ },
        ),
    }
}

/// One replica read from its two string fields.
pub open spec fn shark_of(ms: Seq<JMemberV>) -> Result<SharkV, ErrV> {
    match req_str(ms, "datacenter"@) {
        Err(e) => Err(e),
        Ok(dc) => match req_str(ms, "manta_storage_id"@) {
            Err(e) => Err(e),
            Ok(sid) => Ok(SharkV { datacenter: dc, manta_storage_id: sid }),
        },
    }
}

pub open spec fn sharks_of_arr(a: Seq<JVal>) -> Result<Seq<SharkV>, ErrV>
    decreases a.len(),
{
    if a.len() == 0 {
        Ok(Seq::empty())
    } else {
        match a[0] {
            JVal::Obj(ms) => match shark_of(ms) {
                Err(e) => Err(e),
                Ok(s) => match sharks_of_arr(a.drop_first()) {
                    Ok(rest) => Ok(seq![s] + rest),
                    Err(e) => Err(e),
                },
            },
            _ => Err(ErrV::TypeMismatch { field: "sharks"@, expected: "array of objects"@ }),
        }
    }
}

/// The `sharks` field: defaulted to the empty sequence.
pub open spec fn def_sharks(pairs: Seq<JMemberV>) -> Result<Seq<SharkV>, ErrV> {
    match lookup(pairs, "sharks"@) {
        None => Ok(Seq::empty()),
        Some(JVal::Arr(a)) => sharks_of_arr(a),
        Some(_) => Err(ErrV::TypeMismatch { field: "sharks"@, expected: "array of objects"@ }),
    }
}

// ---------------------------------------------------------------------------
// Decoding an object or directory from an object's members
// ---------------------------------------------------------------------------

/// Decode an object record from members: required fields under their
/// canonical snake_case names, the content fields defaulted and read under
/// their camelCase canonical names with the historical aliases.
pub open spec fn object_of(pairs: Seq<JMemberV>) -> Result<ObjectV, ErrV> {
    if req_headers(pairs) is Err {
        Err(req_headers(pairs)->Err_0)
    } else if req_str(pairs, "key"@) is Err {
        Err(req_str(pairs, "key"@)->Err_0)
    } else if req_i64(pairs, "mtime"@) is Err {
        Err(req_i64(pairs, "mtime"@)->Err_0)
    } else if req_str(pairs, "name"@) is Err {
        Err(req_str(pairs, "name"@)->Err_0)
    } else if req_str(pairs, "creator"@) is Err {
        Err(req_str(pairs, "creator"@)->Err_0)
    } else if req_str(pairs, "dirname"@) is Err {
        Err(req_str(pairs, "dirname"@)->Err_0)
    } else if req_str(pairs, "owner"@) is Err {
        Err(req_str(pairs, "owner"@)->Err_0)
    } else if req_roles(pairs) is Err {
        Err(req_roles(pairs)->Err_0)
    } else if req_i64(pairs, "vnode"@) is Err {
        Err(req_i64(pairs, "vnode"@)->Err_0)
    } else if def_u64(pairs, "contentLength"@, "content_length"@) is Err {
        Err(def_u64(pairs, "contentLength"@, "content_length"@)->Err_0)
    } else if def_str3(pairs, "contentMd5"@, "contentMD5"@, "content_md5"@) is Err {
        Err(def_str3(pairs, "contentMd5"@, "contentMD5"@, "content_md5"@)->Err_0)
    } else if def_str2(pairs, "contentType"@, "content_type"@) is Err {
        Err(def_str2(pairs, "contentType"@, "content_type"@)->Err_0)
    } else if def_str2(pairs, "objectId"@, "object_id"@) is Err {
        Err(def_str2(pairs, "objectId"@, "object_id"@)->Err_0)
    } else if def_str1(pairs, "etag"@) is Err {
        Err(def_str1(pairs, "etag"@)->Err_0)
    } else if def_sharks(pairs) is Err {
        Err(def_sharks(pairs)->Err_0)
    } else {
        Ok(
            ObjectV {
                headers: req_headers(pairs)->Ok_0,
                key: req_str(pairs, "key"@)->Ok_0,
                mtime: req_i64(pairs, "mtime"@)->Ok_0,
                name: req_str(pairs, "name"@)->Ok_0,
                creator: req_str(pairs, "creator"@)->Ok_0,
                dirname: req_str(pairs, "dirname"@)->Ok_0,
                owner: req_str(pairs, "owner"@)->Ok_0,
                roles: req_roles(pairs)->Ok_0,
                vnode: req_i64(pairs, "vnode"@)->Ok_0,
                content_length: def_u64(pairs, "contentLength"@, "content_length"@)->Ok_0,
                content_md5: def_str3(pairs, "contentMd5"@, "contentMD5"@, "content_md5"@)->Ok_0,
                content_type: def_str2(pairs, "contentType"@, "content_type"@)->Ok_0,
                object_id: def_str2(pairs, "objectId"@, "object_id"@)->Ok_0,
                etag: def_str1(pairs, "etag"@)->Ok_0,
                sharks: def_sharks(pairs)->Ok_0,
            },
        )
    }
}

/// Decode a directory record from members: every field is required.
pub open spec fn directory_of(pairs: Seq<JMemberV>) -> Result<DirectoryV, ErrV> {
    if req_str(pairs, "creator"@) is Err {
        Err(req_str(pairs, "creator"@)->Err_0)
    } else if req_str(pairs, "dirname"@) is Err {
        Err(req_str(pairs, "dirname"@)->Err_0)
    } else if req_headers(pairs) is Err {
        Err(req_headers(pairs)->Err_0)
    } else if req_str(pairs, "key"@) is Err {
        Err(req_str(pairs, "key"@)->Err_0)
    } else if req_i64(pairs, "mtime"@) is Err {
        Err(req_i64(pairs, "mtime"@)->Err_0)
    } else if req_str(pairs, "name"@) is Err {
        Err(req_str(pairs, "name"@)->Err_0)
    } else if req_str(pairs, "owner"@) is Err {
        Err(req_str(pairs, "owner"@)->Err_0)
    } else if req_roles(pairs) is Err {
        Err(req_roles(pairs)->Err_0)
    } else if req_i64(pairs, "vnode"@) is Err {
        Err(req_i64(pairs, "vnode"@)->Err_0)
    } else {
        Ok(
            DirectoryV {
                creator: req_str(pairs, "creator"@)->Ok_0,
                dirname: req_str(pairs, "dirname"@)->Ok_0,
                headers: req_headers(pairs)->Ok_0,
                key: req_str(pairs, "key"@)->Ok_0,
                mtime: req_i64(pairs, "mtime"@)->Ok_0,
                name: req_str(pairs, "name"@)->Ok_0,
                owner: req_str(pairs, "owner"@)->Ok_0,
                roles: req_roles(pairs)->Ok_0,
                vnode: req_i64(pairs, "vnode"@)->Ok_0,
            },
        )
    }
}

// ---------------------------------------------------------------------------
// The discriminant
// ---------------------------------------------------------------------------

pub open spec fn to_lower(c: char) -> char {
    if 65 <= c as u32 <= 90 {
        ((c as u32 + 32) as u8) as char
    } else {
        c
    }
}

/// ASCII-case-insensitive equality of two texts.
pub open spec fn eq_ic(a: Seq<char>, b: Seq<char>) -> bool {
    a.len() == b.len() && forall|i: int| 0 <= i < a.len() ==> to_lower(a[i]) == to_lower(#[trigger] b[i])
}

/// Decode a record from a document: the `type` member picks the variant,
/// under either historical spelling of the discriminant.
pub open spec fn record_of_json(v: JVal) -> Result<RecordV, ErrV> {
    match v {
        JVal::Obj(pairs) => match lookup(pairs, "type"@) {
            None => Err(ErrV::MissingField { field: "type"@ }),
            Some(JVal::Str(t)) => if eq_ic(t, "object"@) {
                match object_of(pairs) {
                    Ok(o) => Ok(RecordV::Object(o)),
                    Err(e) => Err(e),
                }
            } else if eq_ic(t, "directory"@) {
                match directory_of(pairs) {
                    Ok(d) => Ok(RecordV::Directory(d)),
                    Err(e) => Err(e),
                }
            } else {
                Err(ErrV::TypeMismatch { field: "type"@, expected: "object or directory"@ })
            },
            Some(_) => Err(ErrV::TypeMismatch { field: "type"@, expected: "object or directory"@ }),
        },
        _ => Err(ErrV::Malformed),
    }
}

/// What decoding a text yields: parse, then read the record out of the
/// document.
pub open spec fn decode_spec(s: Seq<char>) -> Result<RecordV, ErrV> {
    match sp_json(s) {
        None => Err(ErrV::Malformed),
        Some(v) => record_of_json(v),
    }
}

// ---------------------------------------------------------------------------
// Encoding: the canonical document of a record
// ---------------------------------------------------------------------------

pub open spec fn strs_jv(rs: Seq<Seq<char>>) -> Seq<JVal> {
    rs.map(|i: int, r: Seq<char>| JVal::Str(r))
}

pub open spec fn hdrs_jv(hs: Seq<(Seq<char>, Seq<char>)>) -> Seq<JMemberV> {
    hs.map(|i: int, h: (Seq<char>, Seq<char>)| JMemberV { key: h.0, val: JVal::Str(h.1) })
}

pub open spec fn shark_jv(s: SharkV) -> JVal {
    JVal::Obj(
        seq![
            JMemberV { key: "datacenter"@, val: JVal::Str(s.datacenter) },
            JMemberV { key: "manta_storage_id"@, val: JVal::Str(s.manta_storage_id) },
        ],
    )
}

pub open spec fn sharks_jv(ss: Seq<SharkV>) -> Seq<JVal> {
    ss.map(|i: int, s: SharkV| shark_jv(s))
}

/// The canonical document of an object record: the discriminant under its
/// current lowercase spelling, every field present, defaults included.
pub open spec fn json_of_object(o: ObjectV) -> JVal {
    JVal::Obj(
        seq![
            JMemberV { key: "type"@, val: JVal::Str("object"@) },
            JMemberV { key: "headers"@, val: JVal::Obj(hdrs_jv(o.headers)) },
            JMemberV { key: "key"@, val: JVal::Str(o.key) },
            JMemberV { key: "mtime"@, val: JVal::Num(o.mtime) },
            JMemberV { key: "name"@, val: JVal::Str(o.name) },
            JMemberV { key: "creator"@, val: JVal::Str(o.creator) },
            JMemberV { key: "dirname"@, val: JVal::Str(o.dirname) },
            JMemberV { key: "owner"@, val: JVal::Str(o.owner) },
            JMemberV { key: "roles"@, val: JVal::Arr(strs_jv(o.roles)) },
            JMemberV { key: "vnode"@, val: JVal::Num(o.vnode) },
            JMemberV { key: "contentLength"@, val: JVal::Num(o.content_length) },
            JMemberV { key: "contentMd5"@, val: JVal::Str(o.content_md5) },
            JMemberV { key: "contentType"@, val: JVal::Str(o.content_type) },
            JMemberV { key: "objectId"@, val: JVal::Str(o.object_id) },
            JMemberV { key: "etag"@, val: JVal::Str(o.etag) },
            JMemberV { key: "sharks"@, val: JVal::Arr(sharks_jv(o.sharks)) },
        ],
    )
}

/// The canonical document of a directory record.
pub open spec fn json_of_directory(d: DirectoryV) -> JVal {
    JVal::Obj(
        seq![
            JMemberV { key: "type"@, val: JVal::Str("directory"@) },
            JMemberV { key: "creator"@, val: JVal::Str(d.creator) },
            JMemberV { key: "dirname"@, val: JVal::Str(d.dirname) },
            JMemberV { key: "headers"@, val: JVal::Obj(hdrs_jv(d.headers)) },
            JMemberV { key: "key"@, val: JVal::Str(d.key) },
            JMemberV { key: "mtime"@, val: JVal::Num(d.mtime) },
            JMemberV { key: "name"@, val: JVal::Str(d.name) },
            JMemberV { key: "owner"@, val: JVal::Str(d.owner) },
            JMemberV { key: "roles"@, val: JVal::Arr(strs_jv(d.roles)) },
            JMemberV { key: "vnode"@, val: JVal::Num(d.vnode) },
        ],
    )
}

pub open spec fn json_of_record(r: RecordV) -> JVal {
    match r {
        RecordV::Object(o) => json_of_object(o),
        RecordV::Directory(d) => json_of_directory(d),
    }
}

// ---------------------------------------------------------------------------
// Executable decoding
// ---------------------------------------------------------------------------

fn e_missing(name: &str) -> (e: SchemaError)
    ensures
        e@ == (ErrV::MissingField { field: name@ }),
{
    SchemaError::MissingField { field: String::from_str(name) }
}

fn e_type(name: &str, exp: &str) -> (e: SchemaError)
    ensures
        e@ == (ErrV::TypeMismatch { field: name@, expected: exp@ }),
{
    SchemaError::TypeMismatch { field: String::from_str(name), expected: String::from_str(exp) }
}

fn find_field<'a>(pairs: &'a Vec<JMember>, name: &str) -> (r: Option<&'a Json>)
    ensures
        match r {
            Some(j) => lookup(jpairs_view(pairs@), name@) == Some(jview(*j)),
            None => lookup(jpairs_view(pairs@), name@) is None,
        },
{
    let name_s: String = String::from_str(name);
    let mut i: usize = 0;
    while i < pairs.len()
        invariant
            0 <= i <= pairs@.len(),
            name_s@ == name@,
            lookup(jpairs_view(pairs@), name@) == lookup_from(
                jpairs_view(pairs@),
                name@,
                i as int,
            ),
        decreases pairs@.len() - i,
    {
        if pairs[i].key == name_s {
            return Some(&pairs[i].val);
        }
        i = i + 1;
    }
    None
}

fn find_field2<'a>(pairs: &'a Vec<JMember>, a: &str, b: &str) -> (r: Option<&'a Json>)
    ensures
        match r {
            Some(j) => lookup2(jpairs_view(pairs@), a@, b@) == Some(jview(*j)),
            None => lookup2(jpairs_view(pairs@), a@, b@) is None,
        },
{
    match find_field(pairs, a) {
        Some(j) => Some(j),
        None => find_field(pairs, b),
    }
}

fn find_field3<'a>(pairs: &'a Vec<JMember>, a: &str, b: &str, c: &str) -> (r: Option<&'a Json>)
    ensures
        match r {
            Some(j) => lookup3(jpairs_view(pairs@), a@, b@, c@) == Some(jview(*j)),
            None => lookup3(jpairs_view(pairs@), a@, b@, c@) is None,
        },
{
    match find_field2(pairs, a, b) {
        Some(j) => Some(j),
        None => find_field(pairs, c),
    }
}

fn get_req_str(pairs: &Vec<JMember>, name: &str) -> (r: Result<String, SchemaError>)
    ensures
        match r {
            Ok(s) => req_str(jpairs_view(pairs@), name@) == Ok::<Seq<char>, ErrV>(s@),
            Err(e) => req_str(jpairs_view(pairs@), name@) == Err::<Seq<char>, ErrV>(e@),
        },
{
    match find_field(pairs, name) {
        None => Err(e_missing(name)),
        Some(j) => match j {
            Json::Str(st) => Ok(st.clone()),
            _ => Err(e_type(name, "string")),
        },
    }
}

fn get_req_i64(pairs: &Vec<JMember>, name: &str) -> (r: Result<i64, SchemaError>)
    ensures
        match r {
            Ok(v) => req_i64(jpairs_view(pairs@), name@) == Ok::<int, ErrV>(v as int),
            Err(e) => req_i64(jpairs_view(pairs@), name@) == Err::<int, ErrV>(e@),
        },
{
    match find_field(pairs, name) {
        None => Err(e_missing(name)),
        Some(j) => match j {
            Json::Num(n) => {
                let v: i128 = *n;
                if i64::MIN as i128 <= v && v <= i64::MAX as i128 {
                    Ok(v as i64)
                } else {
                    Err(e_type(name, "signed 64-bit integer"))
                }
            },
            _ => Err(e_type(name, "signed 64-bit integer")),
        },
    }
}

fn get_def_u64(pairs: &Vec<JMember>, a: &str, b: &str) -> (r: Result<u64, SchemaError>)
    ensures
        match r {
            Ok(v) => def_u64(jpairs_view(pairs@), a@, b@) == Ok::<int, ErrV>(v as int),
            Err(e) => def_u64(jpairs_view(pairs@), a@, b@) == Err::<int, ErrV>(e@),
        },
{
    match find_field2(pairs, a, b) {
        None => Ok(0),
        Some(j) => match j {
            Json::Num(n) => {
                let v: i128 = *n;
                if 0 <= v && v <= u64::MAX as i128 {
                    Ok(v as u64)
                } else {
                    Err(e_type(a, "unsigned 64-bit integer"))
                }
            },
            _ => Err(e_type(a, "unsigned 64-bit integer")),
        },
    }
}

fn get_def_str1(pairs: &Vec<JMember>, a: &str) -> (r: Result<String, SchemaError>)
    ensures
        match r {
            Ok(s) => def_str1(jpairs_view(pairs@), a@) == Ok::<Seq<char>, ErrV>(s@),
            Err(e) => def_str1(jpairs_view(pairs@), a@) == Err::<Seq<char>, ErrV>(e@),
        },
{
    match find_field(pairs, a) {
        None => Ok(String::new()),
        Some(j) => match j {
            Json::Str(st) => Ok(st.clone()),
            _ => Err(e_type(a, "string")),
        },
    }
}

fn get_def_str2(pairs: &Vec<JMember>, a: &str, b: &str) -> (r: Result<String, SchemaError>)
    ensures
        match r {
            Ok(s) => def_str2(jpairs_view(pairs@), a@, b@) == Ok::<Seq<char>, ErrV>(s@),
            Err(e) => def_str2(jpairs_view(pairs@), a@, b@) == Err::<Seq<char>, ErrV>(e@),
        },
{
    match find_field2(pairs, a, b) {
        None => Ok(String::new()),
        Some(j) => match j {
            Json::Str(st) => Ok(st.clone()),
            _ => Err(e_type(a, "string")),
        },
    }
}

fn get_def_str3(pairs: &Vec<JMember>, a: &str, b: &str, c: &str) -> (r: Result<
    String,
    SchemaError,
>)
    ensures
        match r {
            Ok(s) => def_str3(jpairs_view(pairs@), a@, b@, c@) == Ok::<Seq<char>, ErrV>(s@),
            Err(e) => def_str3(jpairs_view(pairs@), a@, b@, c@) == Err::<Seq<char>, ErrV>(e@),
        },
{
    match find_field3(pairs, a, b, c) {
        None => Ok(String::new()),
        Some(j) => match j {
            Json::Str(st) => Ok(st.clone()),
            _ => Err(e_type(a, "string")),
        },
    }
}

fn hdrs_from(ms: &Vec<JMember>) -> (r: Result<Vec<(String, String)>, SchemaError>)
    ensures
        match r {
            Ok(v) => hdrs_of(jpairs_view(ms@)) == Ok::<Seq<(Seq<char>, Seq<char>)>, ErrV>(
                v.deep_view(),
            ),
            Err(e) => hdrs_of(jpairs_view(ms@)) == Err::<Seq<(Seq<char>, Seq<char>)>, ErrV>(e@),
        },
{
    let mut acc: Vec<(String, String)> = Vec::new();
    proof {
        assert(jpairs_view(ms@).skip(0) =~= jpairs_view(ms@));
        assert(acc.deep_view() =~= Seq::<(Seq<char>, Seq<char>)>::empty());
    }
    let mut i: usize = 0;
    while i < ms.len()
        invariant
            0 <= i <= ms@.len(),
            hdrs_of(jpairs_view(ms@)) == (match hdrs_of(jpairs_view(ms@).skip(i as int)) {
                Ok(rest) => Ok::<Seq<(Seq<char>, Seq<char>)>, ErrV>(acc.deep_view() + rest),
                Err(e) => Err::<Seq<(Seq<char>, Seq<char>)>, ErrV>(e),
            }),
        decreases ms@.len() - i,
    {
        proof {
            assert(jpairs_view(ms@).skip(i as int)[0] == jpairs_view(ms@)[i as int]);
            assert(jpairs_view(ms@).skip(i as int).drop_first() =~= jpairs_view(ms@).skip(
                i as int + 1,
            ));
        }
        let ghost olddeep: Seq<(Seq<char>, Seq<char>)> = acc.deep_view();
        match &ms[i].val {
            Json::Str(t) => {
                acc.push((ms[i].key.clone(), t.clone()));
                proof {
                    assert(acc.deep_view() =~= olddeep.push((ms@[i as int].key@, t@)));
                    let r2 = hdrs_of(jpairs_view(ms@).skip(i as int + 1));
                    if r2 is Ok {
                        assert(olddeep + (seq![(ms@[i as int].key@, t@)] + r2->Ok_0)
                            =~= acc.deep_view() + r2->Ok_0);
                    }
                }
            },
            _ => {
                return Err(e_type("headers", "object of string values"));
            },
        }
        i = i + 1;
    }
    proof {
        assert(jpairs_view(ms@).skip(i as int) =~= Seq::<JMemberV>::empty());
        assert(acc.deep_view() + Seq::<(Seq<char>, Seq<char>)>::empty() =~= acc.deep_view());
    }
    Ok(acc)
}

fn get_headers(pairs: &Vec<JMember>) -> (r: Result<Vec<(String, String)>, SchemaError>)
    ensures
        match r {
            Ok(v) => req_headers(jpairs_view(pairs@)) == Ok::<Seq<(Seq<char>, Seq<char>)>, ErrV>(
                v.deep_view(),
            ),
            Err(e) => req_headers(jpairs_view(pairs@)) == Err::<
                Seq<(Seq<char>, Seq<char>)>,
                ErrV,
            >(e@),
        },
{
    match find_field(pairs, "headers") {
        None => Err(e_missing("headers")),
        Some(j) => match j {
            Json::Obj(ms) => {
                proof {
                    assert(jview(*j)->Obj_0 =~= jpairs_view(ms@));
                }
                hdrs_from(ms)
            },
            _ => Err(e_type("headers", "object of string values")),
        },
    }
}

fn strings_from(a: &Vec<Json>, field: &str) -> (r: Result<Vec<String>, SchemaError>)
    ensures
        match r {
            Ok(v) => strings_of(jseq_view(a@), field@) == Ok::<Seq<Seq<char>>, ErrV>(
                v.deep_view(),
            ),
            Err(e) => strings_of(jseq_view(a@), field@) == Err::<Seq<Seq<char>>, ErrV>(e@),
        },
{
    let mut acc: Vec<String> = Vec::new();
    proof {
        assert(jseq_view(a@).skip(0) =~= jseq_view(a@));
        assert(acc.deep_view() =~= Seq::<Seq<char>>::empty());
    }
    let mut i: usize = 0;
    while i < a.len()
        invariant
            0 <= i <= a@.len(),
            strings_of(jseq_view(a@), field@) == (match strings_of(
                jseq_view(a@).skip(i as int),
                field@,
            ) {
                Ok(rest) => Ok::<Seq<Seq<char>>, ErrV>(acc.deep_view() + rest),
                Err(e) => Err::<Seq<Seq<char>>, ErrV>(e),
            }),
        decreases a@.len() - i,
    {
        proof {
            assert(jseq_view(a@).skip(i as int)[0] == jseq_view(a@)[i as int]);
            assert(jseq_view(a@).skip(i as int).drop_first() =~= jseq_view(a@).skip(i as int + 1));
        }
        let ghost olddeep: Seq<Seq<char>> = acc.deep_view();
        match &a[i] {
            Json::Str(t) => {
                acc.push(t.clone());
                proof {
                    assert(acc.deep_view() =~= olddeep.push(t@));
                    let r2 = strings_of(jseq_view(a@).skip(i as int + 1), field@);
                    if r2 is Ok {
                        assert(olddeep + (seq![t@] + r2->Ok_0) =~= acc.deep_view() + r2->Ok_0);
                    }
                }
            },
            _ => {
                return Err(e_type(field, "array of strings"));
            },
        }
        i = i + 1;
    }
    proof {
        assert(jseq_view(a@).skip(i as int) =~= Seq::<JVal>::empty());
        assert(acc.deep_view() + Seq::<Seq<char>>::empty() =~= acc.deep_view());
    }
    Ok(acc)
}

fn get_roles(pairs: &Vec<JMember>) -> (r: Result<Vec<String>, SchemaError>)
    ensures
        match r {
            Ok(v) => req_roles(jpairs_view(pairs@)) == Ok::<Seq<Seq<char>>, ErrV>(v.deep_view()),
            Err(e) => req_roles(jpairs_view(pairs@)) == Err::<Seq<Seq<char>>, ErrV>(e@),
        },
{
    match find_field(pairs, "roles") {
        None => Err(e_missing("roles")),
        Some(j) => match j {
            Json::Arr(a) => {
                proof {
                    assert(jview(*j)->Arr_0 =~= jseq_view(a@));
                }
                strings_from(a, "roles")
            },
            _ => Err(e_type("roles", "array of strings")),
        },
    }
}

pub open spec fn sharks_view(v: Seq<MantaObjectShark>) -> Seq<SharkV> {
    v.map(|i: int, s: MantaObjectShark| s@)
}

fn sharks_from(a: &Vec<Json>) -> (r: Result<Vec<MantaObjectShark>, SchemaError>)
    ensures
        match r {
            Ok(v) => sharks_of_arr(jseq_view(a@)) == Ok::<Seq<SharkV>, ErrV>(sharks_view(v@)),
            Err(e) => sharks_of_arr(jseq_view(a@)) == Err::<Seq<SharkV>, ErrV>(e@),
        },
{
    let mut acc: Vec<MantaObjectShark> = Vec::new();
    proof {
        assert(jseq_view(a@).skip(0) =~= jseq_view(a@));
        assert(sharks_view(acc@) =~= Seq::<SharkV>::empty());
    }
    let mut i: usize = 0;
    while i < a.len()
        invariant
            0 <= i <= a@.len(),
            sharks_of_arr(jseq_view(a@)) == (match sharks_of_arr(jseq_view(a@).skip(i as int)) {
                Ok(rest) => Ok::<Seq<SharkV>, ErrV>(sharks_view(acc@) + rest),
                Err(e) => Err::<Seq<SharkV>, ErrV>(e),
            }),
        decreases a@.len() - i,
    {
        proof {
            assert(jseq_view(a@).skip(i as int)[0] == jseq_view(a@)[i as int]);
            assert(jseq_view(a@).skip(i as int).drop_first() =~= jseq_view(a@).skip(i as int + 1));
        }
        let ghost oldmap: Seq<SharkV> = sharks_view(acc@);
        match &a[i] {
            Json::Obj(ms) => {
                proof {
                    assert(jview(a@[i as int])->Obj_0 =~= jpairs_view(ms@));
                }
                match get_req_str(ms, "datacenter") {
                    Err(e) => {
                        return Err(e);
                    },
                    Ok(dc) => match get_req_str(ms, "manta_storage_id") {
                        Err(e) => {
                            return Err(e);
                        },
                        Ok(sid) => {
                            acc.push(MantaObjectShark { datacenter: dc, manta_storage_id: sid });
                            proof {
                                let ghost ns = acc@[acc@.len() - 1]@;
                                assert(sharks_view(acc@) =~= oldmap.push(ns));
                                let r2 = sharks_of_arr(jseq_view(a@).skip(i as int + 1));
                                if r2 is Ok {
                                    assert(oldmap + (seq![ns] + r2->Ok_0) =~= sharks_view(acc@)
                                        + r2->Ok_0);
                                }
                            }
                        },
                    },
                }
            },
            _ => {
                return Err(e_type("sharks", "array of objects"));
            },
        }
        i = i + 1;
    }
    proof {
        assert(jseq_view(a@).skip(i as int) =~= Seq::<JVal>::empty());
        assert(sharks_view(acc@) + Seq::<SharkV>::empty() =~= sharks_view(acc@));
    }
    Ok(acc)
}

fn get_sharks(pairs: &Vec<JMember>) -> (r: Result<Vec<MantaObjectShark>, SchemaError>)
    ensures
        match r {
            Ok(v) => def_sharks(jpairs_view(pairs@)) == Ok::<Seq<SharkV>, ErrV>(sharks_view(v@)),
            Err(e) => def_sharks(jpairs_view(pairs@)) == Err::<Seq<SharkV>, ErrV>(e@),
        },
{
    match find_field(pairs, "sharks") {
        None => {
            let empty_sharks: Vec<MantaObjectShark> = Vec::new();
            proof {
                assert(sharks_view(empty_sharks@) =~= Seq::<SharkV>::empty());
            }
            Ok(empty_sharks)
        },
        Some(j) => match j {
            Json::Arr(a) => {
                proof {
                    assert(jview(*j)->Arr_0 =~= jseq_view(a@));
                }
                sharks_from(a)
            },
            _ => Err(e_type("sharks", "array of objects")),
        },
    }
}

fn object_from_pairs(pairs: &Vec<JMember>) -> (r: Result<MantaObject, SchemaError>)
    ensures
        match r {
            Ok(o) => object_of(jpairs_view(pairs@)) == Ok::<ObjectV, ErrV>(o@),
            Err(e) => object_of(jpairs_view(pairs@)) == Err::<ObjectV, ErrV>(e@),
        },
{
    let headers: Vec<(String, String)> = match get_headers(pairs) {
        Ok(v) => v,
        Err(e) => {
            return Err(e);
        },
    };
    let key: String = match get_req_str(pairs, "key") {
        Ok(v) => v,
        Err(e) => {
            return Err(e);
        },
    };
    let mtime: i64 = match get_req_i64(pairs, "mtime") {
        Ok(v) => v,
        Err(e) => {
            return Err(e);
        },
    };
    let name: String = match get_req_str(pairs, "name") {
        Ok(v) => v,
        Err(e) => {
            return Err(e);
        },
    };
    let creator: String = match get_req_str(pairs, "creator") {
        Ok(v) => v,
        Err(e) => {
            return Err(e);
        },
    };
    let dirname: String = match get_req_str(pairs, "dirname") {
        Ok(v) => v,
        Err(e) => {
            return Err(e);
        },
    };
    let owner: String = match get_req_str(pairs, "owner") {
        Ok(v) => v,
        Err(e) => {
            return Err(e);
        },
    };
    let roles: Vec<String> = match get_roles(pairs) {
        Ok(v) => v,
        Err(e) => {
            return Err(e);
        },
    };
    let vnode: i64 = match get_req_i64(pairs, "vnode") {
        Ok(v) => v,
        Err(e) => {
            return Err(e);
        },
    };
    let content_length: u64 = match get_def_u64(pairs, "contentLength", "content_length") {
        Ok(v) => v,
        Err(e) => {
            return Err(e);
        },
    };
    let content_md5: String = match get_def_str3(pairs, "contentMd5", "contentMD5", "content_md5") {
        Ok(v) => v,
        Err(e) => {
            return Err(e);
        },
    };
    let content_type: String = match get_def_str2(pairs, "contentType", "content_type") {
        Ok(v) => v,
        Err(e) => {
            return Err(e);
        },
    };
    let object_id: String = match get_def_str2(pairs, "objectId", "object_id") {
        Ok(v) => v,
        Err(e) => {
            return Err(e);
        },
    };
    let etag: String = match get_def_str1(pairs, "etag") {
        Ok(v) => v,
        Err(e) => {
            return Err(e);
        },
    };
    let sharks: Vec<MantaObjectShark> = match get_sharks(pairs) {
        Ok(v) => v,
        Err(e) => {
            return Err(e);
        },
    };
    Ok(
        MantaObject {
            headers,
            key,
            mtime,
            name,
            creator,
            dirname,
            owner,
            roles,
            vnode,
            content_length,
            content_md5,
            content_type,
            object_id,
            etag,
            sharks,
        },
    )
}

fn directory_from_pairs(pairs: &Vec<JMember>) -> (r: Result<MantaDirectory, SchemaError>)
    ensures
        match r {
            Ok(d) => directory_of(jpairs_view(pairs@)) == Ok::<DirectoryV, ErrV>(d@),
            Err(e) => directory_of(jpairs_view(pairs@)) == Err::<DirectoryV, ErrV>(e@),
        },
{
    let creator: String = match get_req_str(pairs, "creator") {
        Ok(v) => v,
        Err(e) => {
            return Err(e);
        },
    };
    let dirname: String = match get_req_str(pairs, "dirname") {
        Ok(v) => v,
        Err(e) => {
            return Err(e);
        },
    };
    let headers: Vec<(String, String)> = match get_headers(pairs) {
        Ok(v) => v,
        Err(e) => {
            return Err(e);
        },
    };
    let key: String = match get_req_str(pairs, "key") {
        Ok(v) => v,
        Err(e) => {
            return Err(e);
        },
    };
    let mtime: i64 = match get_req_i64(pairs, "mtime") {
        Ok(v) => v,
        Err(e) => {
            return Err(e);
        },
    };
    let name: String = match get_req_str(pairs, "name") {
        Ok(v) => v,
        Err(e) => {
            return Err(e);
        },
    };
    let owner: String = match get_req_str(pairs, "owner") {
        Ok(v) => v,
        Err(e) => {
            return Err(e);
        },
    };
    let roles: Vec<String> = match get_roles(pairs) {
        Ok(v) => v,
        Err(e) => {
            return Err(e);
        },
    };
    let vnode: i64 = match get_req_i64(pairs, "vnode") {
        Ok(v) => v,
        Err(e) => {
            return Err(e);
        },
    };
    Ok(MantaDirectory { creator, dirname, headers, key, mtime, name, owner, roles, vnode })
}

fn to_lower_char(c: char) -> (r: char)
    ensures
        r == to_lower(c),
{
    let u: u32 = c as u32;
    if 65 <= u && u <= 90 {
        ((u + 32) as u8) as char
    } else {
        c
    }
}

fn eq_ic_str(a: &str, b: &str) -> (r: bool)
    ensures
        r == eq_ic(a@, b@),
{
    let av: Vec<char> = crate::trusted::str_chars(a);
    let bv: Vec<char> = crate::trusted::str_chars(b);
    if av.len() != bv.len() {
        return false;
    }
    let n: usize = av.len();
    let mut i: usize = 0;
    while i < n
        invariant
            av@ == a@,
            bv@ == b@,
            n == av@.len() == bv@.len(),
            0 <= i <= n,
            forall|k: int| 0 <= k < i ==> to_lower(a@[k]) == to_lower(#[trigger] b@[k]),
        decreases n - i,
    {
        if to_lower_char(av[i]) != to_lower_char(bv[i]) {
            return false;
        }
        i = i + 1;
    }
    true
}

fn record_from_json(doc: &Json) -> (r: Result<ObjectType, SchemaError>)
    ensures
        match r {
            Ok(rec) => record_of_json(jview(*doc)) == Ok::<RecordV, ErrV>(rec@),
            Err(e) => record_of_json(jview(*doc)) == Err::<RecordV, ErrV>(e@),
        },
{
    match doc {
        Json::Obj(pairs) => {
            proof {
                assert(jview(*doc)->Obj_0 =~= jpairs_view(pairs@));
            }
            match find_field(pairs, "type") {
                None => Err(e_missing("type")),
                Some(tj) => match tj {
                    Json::Str(t) => {
                        if eq_ic_str(t.as_str(), "object") {
                            match object_from_pairs(pairs) {
                                Ok(o) => Ok(ObjectType::Object(o)),
                                Err(e) => Err(e),
                            }
                        } else if eq_ic_str(t.as_str(), "directory") {
                            match directory_from_pairs(pairs) {
                                Ok(d) => Ok(ObjectType::Directory(d)),
                                Err(e) => Err(e),
                            }
                        } else {
                            Err(e_type("type", "object or directory"))
                        }
                    },
                    _ => Err(e_type("type", "object or directory")),
                },
            }
        },
        _ => Err(SchemaError::Malformed),
    }
}

/// Decode a record from its textual form: parse the text, pick the variant
/// by the discriminant (either spelling), and read each field under its
/// canonical name or its aliases, substituting declared defaults. The
/// result is exactly what `decode_spec` names, success and each error
/// alike.
pub fn decode(s: &str) -> (r: Result<ObjectType, SchemaError>)
    ensures
        match r {
            Ok(rec) => decode_spec(s@) == Ok::<RecordV, ErrV>(rec@),
            Err(e) => decode_spec(s@) == Err::<RecordV, ErrV>(e@),
        },
{
    match parse_json(s) {
        None => Err(SchemaError::Malformed),
        Some(doc) => record_from_json(&doc),
    }
}

// ---------------------------------------------------------------------------
// Executable encoding
// ---------------------------------------------------------------------------

fn headers_to_json(hs: &Vec<(String, String)>) -> (j: Json)
    ensures
        jview(j) == JVal::Obj(hdrs_jv(hs.deep_view())),
{
    let mut members: Vec<JMember> = Vec::new();
    proof {
        assert(jpairs_view(members@) =~= hdrs_jv(hs.deep_view()).take(0));
    }
    let mut i: usize = 0;
    while i < hs.len()
        invariant
            0 <= i <= hs@.len(),
            members@.len() == i,
            jpairs_view(members@) == hdrs_jv(hs.deep_view()).take(i as int),
        decreases hs@.len() - i,
    {
        let k2: String = hs[i].0.clone();
        let v2: String = hs[i].1.clone();
        let ghost oldm: Seq<JMember> = members@;
        members.push(JMember { key: k2, val: Json::Str(v2) });
        proof {
            assert(oldm.len() == i);
            assert(members@[i as int].key@ == hs@[i as int].0@);
            assert(jpairs_view(members@) =~= hdrs_jv(hs.deep_view()).take(i as int + 1));
        }
        i = i + 1;
    }
    let j = Json::Obj(members);
    proof {
        assert(hdrs_jv(hs.deep_view()).take(i as int) =~= hdrs_jv(hs.deep_view()));
        assert(jview(j)->Obj_0 =~= hdrs_jv(hs.deep_view()));
    }
    j
}

fn roles_to_json(rs: &Vec<String>) -> (j: Json)
    ensures
        jview(j) == JVal::Arr(strs_jv(rs.deep_view())),
{
    let mut items: Vec<Json> = Vec::new();
    proof {
        assert(jseq_view(items@) =~= strs_jv(rs.deep_view()).take(0));
    }
    let mut i: usize = 0;
    while i < rs.len()
        invariant
            0 <= i <= rs@.len(),
            items@.len() == i,
            jseq_view(items@) == strs_jv(rs.deep_view()).take(i as int),
        decreases rs@.len() - i,
    {
        items.push(Json::Str(rs[i].clone()));
        proof {
            assert(jseq_view(items@) =~= strs_jv(rs.deep_view()).take(i as int + 1));
        }
        i = i + 1;
    }
    let j = Json::Arr(items);
    proof {
        assert(strs_jv(rs.deep_view()).take(i as int) =~= strs_jv(rs.deep_view()));
        assert(jview(j)->Arr_0 =~= strs_jv(rs.deep_view()));
    }
    j
}

fn sharks_to_json(ss: &Vec<MantaObjectShark>) -> (j: Json)
    ensures
        jview(j) == JVal::Arr(sharks_jv(sharks_view(ss@))),
{
    let mut items: Vec<Json> = Vec::new();
    proof {
        assert(jseq_view(items@) =~= sharks_jv(sharks_view(ss@)).take(0));
    }
    let mut i: usize = 0;
    while i < ss.len()
        invariant
            0 <= i <= ss@.len(),
            items@.len() == i,
            jseq_view(items@) == sharks_jv(sharks_view(ss@)).take(i as int),
        decreases ss@.len() - i,
    {
        let mut sm: Vec<JMember> = Vec::new();
        let dc_key: String = String::from_str("datacenter");
        let dc_val: String = ss[i].datacenter.clone();
        sm.push(JMember { key: dc_key, val: Json::Str(dc_val) });
        let sid_key: String = String::from_str("manta_storage_id");
        let sid_val: String = ss[i].manta_storage_id.clone();
        sm.push(JMember { key: sid_key, val: Json::Str(sid_val) });
        let sj = Json::Obj(sm);
        proof {
            reveal_with_fuel(jview, 3);
            assert(sm@.len() == 2);
            assert(jview(sj)->Obj_0 =~= shark_jv(ss@[i as int]@)->Obj_0);
            assert(jview(sj) == shark_jv(ss@[i as int]@));
        }
        items.push(sj);
        proof {
            assert(jseq_view(items@) =~= sharks_jv(sharks_view(ss@)).take(i as int + 1));
        }
        i = i + 1;
    }
    let j = Json::Arr(items);
    proof {
        assert(sharks_jv(sharks_view(ss@)).take(i as int) =~= sharks_jv(sharks_view(ss@)));
        assert(jview(j)->Arr_0 =~= sharks_jv(sharks_view(ss@)));
    }
    j
}

fn object_to_json(o: &MantaObject) -> (j: Json)
    ensures
        jview(j) == json_of_object(o@),
{
    let hj = headers_to_json(&o.headers);
    let rj = roles_to_json(&o.roles);
    let sj = sharks_to_json(&o.sharks);
    let mut m: Vec<JMember> = Vec::new();
    m.push(JMember { key: String::from_str("type"), val: Json::Str(String::from_str("object")) });
    m.push(JMember { key: String::from_str("headers"), val: hj });
    m.push(JMember { key: String::from_str("key"), val: Json::Str(o.key.clone()) });
    m.push(JMember { key: String::from_str("mtime"), val: Json::Num(o.mtime as i128) });
    m.push(JMember { key: String::from_str("name"), val: Json::Str(o.name.clone()) });
    m.push(JMember { key: String::from_str("creator"), val: Json::Str(o.creator.clone()) });
    m.push(JMember { key: String::from_str("dirname"), val: Json::Str(o.dirname.clone()) });
    m.push(JMember { key: String::from_str("owner"), val: Json::Str(o.owner.clone()) });
    m.push(JMember { key: String::from_str("roles"), val: rj });
    m.push(JMember { key: String::from_str("vnode"), val: Json::Num(o.vnode as i128) });
    m.push(
        JMember {
            key: String::from_str("contentLength"),
            val: Json::Num(o.content_length as i128),
        },
    );
    m.push(
        JMember { key: String::from_str("contentMd5"), val: Json::Str(o.content_md5.clone()) },
    );
    m.push(
        JMember { key: String::from_str("contentType"), val: Json::Str(o.content_type.clone()) },
    );
    m.push(JMember { key: String::from_str("objectId"), val: Json::Str(o.object_id.clone()) });
    m.push(JMember { key: String::from_str("etag"), val: Json::Str(o.etag.clone()) });
    m.push(JMember { key: String::from_str("sharks"), val: sj });
    let j = Json::Obj(m);
    proof {
        assert(jpairs_view(m@) =~= json_of_object(o@)->Obj_0);
        assert(jview(j)->Obj_0 =~= jpairs_view(m@));
    }
    j
}

fn directory_to_json(d: &MantaDirectory) -> (j: Json)
    ensures
        jview(j) == json_of_directory(d@),
{
    let hj = headers_to_json(&d.headers);
    let rj = roles_to_json(&d.roles);
    let mut m: Vec<JMember> = Vec::new();
    m.push(
        JMember { key: String::from_str("type"), val: Json::Str(String::from_str("directory")) },
    );
    m.push(JMember { key: String::from_str("creator"), val: Json::Str(d.creator.clone()) });
    m.push(JMember { key: String::from_str("dirname"), val: Json::Str(d.dirname.clone()) });
    m.push(JMember { key: String::from_str("headers"), val: hj });
    m.push(JMember { key: String::from_str("key"), val: Json::Str(d.key.clone()) });
    m.push(JMember { key: String::from_str("mtime"), val: Json::Num(d.mtime as i128) });
    m.push(JMember { key: String::from_str("name"), val: Json::Str(d.name.clone()) });
    m.push(JMember { key: String::from_str("owner"), val: Json::Str(d.owner.clone()) });
    m.push(JMember { key: String::from_str("roles"), val: rj });
    m.push(JMember { key: String::from_str("vnode"), val: Json::Num(d.vnode as i128) });
    let j = Json::Obj(m);
    proof {
        assert(jpairs_view(m@) =~= json_of_directory(d@)->Obj_0);
        assert(jview(j)->Obj_0 =~= jpairs_view(m@));
    }
    j
}

fn record_to_json(rec: &ObjectType) -> (j: Json)
    ensures
        jview(j) == json_of_record(rec@),
{
    match rec {
        ObjectType::Object(o) => object_to_json(o),
        ObjectType::Directory(d) => directory_to_json(d),
    }
}

/// Encode a record as its canonical compact text: the discriminant under
/// its current lowercase spelling, every field under its canonical external
/// name, defaults included.
pub fn encode(rec: &ObjectType) -> (r: String)
    ensures
        r@ == print_jval(json_of_record(rec@)),
{
    let j = record_to_json(rec);
    crate::json::print_json(&j)
}

/// Store a record in a single text column: the same canonical text that
/// `encode` emits, self-contained, with control characters escaped.
pub fn to_storage_text(rec: &ObjectType) -> (r: String)
    ensures
        r@ == print_jval(json_of_record(rec@)),
{
    encode(rec)
}

/// Read a record back from a text column. A failure is reported as a
/// `CodecError` wrapping the underlying cause; corrupted text is rejected,
/// never a panic.
pub fn from_storage_text(s: &str) -> (r: Result<ObjectType, CodecError>)
    ensures
        match r {
            Ok(rec) => decode_spec(s@) == Ok::<RecordV, ErrV>(rec@),
            Err(e) => decode_spec(s@) == Err::<RecordV, ErrV>(e.cause@),
        },
{
    match decode(s) {
        Ok(rec) => Ok(rec),
        Err(e) => Err(CodecError { cause: e }),
    }
}

// ---------------------------------------------------------------------------
// Record equality, and the checked storage round trip
// ---------------------------------------------------------------------------

fn eq_string_vecs(a: &Vec<String>, b: &Vec<String>) -> (r: bool)
    ensures
        r == (a.deep_view() == b.deep_view()),
{
    if a.len() != b.len() {
        proof {
            assert(a.deep_view().len() == a@.len());
            assert(b.deep_view().len() == b@.len());
        }
        return false;
    }
    let n: usize = a.len();
    let mut i: usize = 0;
    while i < n
        invariant
            0 <= i <= n,
            n == a@.len() && n == b@.len(),
            forall|k: int| 0 <= k < i ==> a.deep_view()[k] == b.deep_view()[k],
        decreases n - i,
    {
        if !a[i].eq(&b[i]) {
            proof {
                assert(a.deep_view()[i as int] != b.deep_view()[i as int]);
            }
            return false;
        }
        proof {
            assert(a.deep_view()[i as int] == b.deep_view()[i as int]);
        }
        i = i + 1;
    }
    proof {
        assert(a.deep_view() =~= b.deep_view());
    }
    true
}

fn eq_header_vecs(a: &Vec<(String, String)>, b: &Vec<(String, String)>) -> (r: bool)
    ensures
        r == (a.deep_view() == b.deep_view()),
{
    if a.len() != b.len() {
        proof {
            assert(a.deep_view().len() == a@.len());
            assert(b.deep_view().len() == b@.len());
        }
        return false;
    }
    let n: usize = a.len();
    let mut i: usize = 0;
    while i < n
        invariant
            0 <= i <= n,
            n == a@.len() && n == b@.len(),
            forall|k: int| 0 <= k < i ==> a.deep_view()[k] == b.deep_view()[k],
        decreases n - i,
    {
        if !(a[i].0.eq(&b[i].0) && a[i].1.eq(&b[i].1)) {
            proof {
                assert(a.deep_view()[i as int] != b.deep_view()[i as int]);
            }
            return false;
        }
        proof {
            assert(a.deep_view()[i as int] == b.deep_view()[i as int]);
        }
        i = i + 1;
    }
    proof {
        assert(a.deep_view() =~= b.deep_view());
    }
    true
}

fn eq_shark_vecs(a: &Vec<MantaObjectShark>, b: &Vec<MantaObjectShark>) -> (r: bool)
    ensures
        r == (sharks_view(a@) == sharks_view(b@)),
{
    if a.len() != b.len() {
        return false;
    }
    let n: usize = a.len();
    let mut i: usize = 0;
    while i < n
        invariant
            0 <= i <= n,
            n == a@.len() && n == b@.len(),
            forall|k: int| 0 <= k < i ==> sharks_view(a@)[k] == sharks_view(b@)[k],
        decreases n - i,
    {
        if !(a[i].datacenter.eq(&b[i].datacenter) && a[i].manta_storage_id.eq(
            &b[i].manta_storage_id,
        )) {
            proof {
                assert(sharks_view(a@)[i as int] != sharks_view(b@)[i as int]);
            }
            return false;
        }
        proof {
            assert(sharks_view(a@)[i as int] == sharks_view(b@)[i as int]);
        }
        i = i + 1;
    }
    proof {
        assert(sharks_view(a@) =~= sharks_view(b@));
    }
    true
}

fn eq_objects(a: &MantaObject, b: &MantaObject) -> (r: bool)
    ensures
        r == (a@ == b@),
{
    let same = eq_header_vecs(&a.headers, &b.headers) && a.key.eq(&b.key) && a.mtime == b.mtime
        && a.name.eq(&b.name) && a.creator.eq(&b.creator) && a.dirname.eq(&b.dirname) && a.owner.eq(
        &b.owner,
    ) && eq_string_vecs(&a.roles, &b.roles) && a.vnode == b.vnode && a.content_length
        == b.content_length && a.content_md5.eq(&b.content_md5) && a.content_type.eq(
        &b.content_type,
    ) && a.object_id.eq(&b.object_id) && a.etag.eq(&b.etag) && eq_shark_vecs(&a.sharks, &b.sharks);
    same
}

fn eq_directories(a: &MantaDirectory, b: &MantaDirectory) -> (r: bool)
    ensures
        r == (a@ == b@),
{
    let same = a.creator.eq(&b.creator) && a.dirname.eq(&b.dirname) && eq_header_vecs(
        &a.headers,
        &b.headers,
    ) && a.key.eq(&b.key) && a.mtime == b.mtime && a.name.eq(&b.name) && a.owner.eq(&b.owner)
        && eq_string_vecs(&a.roles, &b.roles) && a.vnode == b.vnode;
    same
}

/// Structural equality of two records, decided field by field.
pub fn eq_records(a: &ObjectType, b: &ObjectType) -> (r: bool)
    ensures
        r == (a@ == b@),
{
    match (a, b) {
        (ObjectType::Object(x), ObjectType::Object(y)) => eq_objects(x, y),
        (ObjectType::Directory(x), ObjectType::Directory(y)) => eq_directories(x, y),
        _ => false,
    }
}

/// Store a record and confirm the round trip: the text returned is the
/// canonical encoding and is proved, for this very value, to decode back to
/// the record it came from.
pub fn to_storage_text_checked(rec: &ObjectType) -> (r: Option<String>)
    ensures
        match r {
            Some(t) => t@ == print_jval(json_of_record(rec@)) && decode_spec(t@) == Ok::<
                RecordV,
                ErrV,
            >(rec@),
            None => true,
        },
{
    let t = encode(rec);
    match decode(t.as_str()) {
        Ok(rec2) => {
            if eq_records(rec, &rec2) {
                Some(t)
            } else {
                None
            }
        },
        Err(_) => None,
    }
}

} // verus!
