//! The record schema of the metadata index: the tagged union over object and
//! directory entries, its mathematical view, and the domain-constraint
//! validation (UUID-formatted fields, shark storage-id pattern, non-negative
//! signed columns).

use vstd::prelude::*;

verus! {

// ---------------------------------------------------------------------------
// Errors
// ---------------------------------------------------------------------------

/// A failure while decoding or validating a record.
#[derive(Debug, Clone, PartialEq)]
pub enum SchemaError {
    /// A required field is absent and neither an alias nor a default covers it.
    MissingField { field: String },
    /// A field is present but has the wrong shape.
    TypeMismatch { field: String, expected: String },
    /// A field is present and well-shaped but breaks a domain constraint.
    InvalidFormat { field: String, reason: String },
    /// The text is not a well-formed record encoding at all.
    Malformed,
}

/// Mathematical view of a `SchemaError`.
pub enum ErrV {
    MissingField { field: Seq<char> },
    TypeMismatch { field: Seq<char>, expected: Seq<char> },
    InvalidFormat { field: Seq<char>, reason: Seq<char> },
    Malformed,
}

impl View for SchemaError {
    type V = ErrV;

    open spec fn view(&self) -> ErrV {
        match self {
            SchemaError::MissingField { field } => ErrV::MissingField { field: field@ },
            SchemaError::TypeMismatch { field, expected } => ErrV::TypeMismatch {
                field: field@,
                expected: expected@,
            },
            SchemaError::InvalidFormat { field, reason } => ErrV::InvalidFormat {
                field: field@,
                reason: reason@,
            },
            SchemaError::Malformed => ErrV::Malformed,
        }
    }
}

/// A decoding failure at the storage-text boundary, wrapping the underlying
/// schema error; recoverable, never a panic.
#[derive(Debug, Clone, PartialEq)]
pub struct CodecError {
    pub cause: SchemaError,
}

impl View for CodecError {
    type V = ErrV;

    open spec fn view(&self) -> ErrV {
        self.cause@
    }
}

// ---------------------------------------------------------------------------
// Record types and their views
// ---------------------------------------------------------------------------

/// One replica location of an object's content: a datacenter and the
/// identifier of the storage node holding the copy.
#[derive(Debug, Clone, PartialEq, Default)]
pub struct MantaObjectShark {
    pub datacenter: String,
    pub manta_storage_id: String,
}

/// Mathematical view of a `MantaObjectShark`.
pub struct SharkV {
    pub datacenter: Seq<char>,
    pub manta_storage_id: Seq<char>,
}

impl View for MantaObjectShark {
    type V = SharkV;

    open spec fn view(&self) -> SharkV {
        SharkV { datacenter: self.datacenter@, manta_storage_id: self.manta_storage_id@ }
    }
}

/// An object entry. `mtime` and `vnode` are signed only to match the
/// relational storage column's integer domain; valid instances keep them
/// non-negative.
#[derive(Debug, Clone, PartialEq, Default)]
pub struct MantaObject {
    pub headers: Vec<(String, String)>,
    pub key: String,
    pub mtime: i64,
    pub name: String,
    pub creator: String,
    pub dirname: String,
    pub owner: String,
    pub roles: Vec<String>,
    pub vnode: i64,
    pub content_length: u64,
    pub content_md5: String,
    pub content_type: String,
    pub object_id: String,
    pub etag: String,
    pub sharks: Vec<MantaObjectShark>,
}

/// Mathematical view of a `MantaObject`.
pub struct ObjectV {
    pub headers: Seq<(Seq<char>, Seq<char>)>,
    pub key: Seq<char>,
    pub mtime: int,
    pub name: Seq<char>,
    pub creator: Seq<char>,
    pub dirname: Seq<char>,
    pub owner: Seq<char>,
    pub roles: Seq<Seq<char>>,
    pub vnode: int,
    pub content_length: int,
    pub content_md5: Seq<char>,
    pub content_type: Seq<char>,
    pub object_id: Seq<char>,
    pub etag: Seq<char>,
    pub sharks: Seq<SharkV>,
}

impl View for MantaObject {
    type V = ObjectV;

    open spec fn view(&self) -> ObjectV {
        ObjectV {
            headers: self.headers.deep_view(),
            key: self.key@,
            mtime: self.mtime as int,
            name: self.name@,
            creator: self.creator@,
            dirname: self.dirname@,
            owner: self.owner@,
            roles: self.roles.deep_view(),
            vnode: self.vnode as int,
            content_length: self.content_length as int,
            content_md5: self.content_md5@,
            content_type: self.content_type@,
            object_id: self.object_id@,
            etag: self.etag@,
            sharks: self.sharks@.map(|i: int, s: MantaObjectShark| s@),
        }
    }
}

/// A directory entry: the identity and ownership fields of an object entry
/// without the content and replica fields.
#[derive(Debug, Clone, PartialEq, Default)]
pub struct MantaDirectory {
    pub creator: String,
    pub dirname: String,
    pub headers: Vec<(String, String)>,
    pub key: String,
    pub mtime: i64,
    pub name: String,
    pub owner: String,
    pub roles: Vec<String>,
    pub vnode: i64,
}

/// Mathematical view of a `MantaDirectory`.
pub struct DirectoryV {
    pub creator: Seq<char>,
    pub dirname: Seq<char>,
    pub headers: Seq<(Seq<char>, Seq<char>)>,
    pub key: Seq<char>,
    pub mtime: int,
    pub name: Seq<char>,
    pub owner: Seq<char>,
    pub roles: Seq<Seq<char>>,
    pub vnode: int,
}

impl View for MantaDirectory {
    type V = DirectoryV;

    open spec fn view(&self) -> DirectoryV {
        DirectoryV {
            creator: self.creator@,
            dirname: self.dirname@,
            headers: self.headers.deep_view(),
            key: self.key@,
            mtime: self.mtime as int,
            name: self.name@,
            owner: self.owner@,
            roles: self.roles.deep_view(),
            vnode: self.vnode as int,
        }
    }
}

/// The tagged union over the two record variants.
#[derive(Debug, Clone, PartialEq)]
pub enum ObjectType {
    Object(MantaObject),
    Directory(MantaDirectory),
}

/// Mathematical view of an `ObjectType`.
pub enum RecordV {
    Object(ObjectV),
    Directory(DirectoryV),
}

impl View for ObjectType {
    type V = RecordV;

    open spec fn view(&self) -> RecordV {
        match self {
            ObjectType::Object(o) => RecordV::Object(o@),
            ObjectType::Directory(d) => RecordV::Directory(d@),
        }
    }
}

// ---------------------------------------------------------------------------
// Domain constraints
// ---------------------------------------------------------------------------

pub open spec fn is_digit(c: char) -> bool {
    48 <= c as u32 <= 57
}

pub open spec fn is_hex_digit(c: char) -> bool {
    is_digit(c) || (97 <= c as u32 <= 102) || (65 <= c as u32 <= 70)
}

pub open spec fn is_alnum(c: char) -> bool {
    is_digit(c) || (97 <= c as u32 <= 122) || (65 <= c as u32 <= 90)
}

/// A canonical UUID string: hyphenated form, five groups of hex digits of
/// lengths 8, 4, 4, 4 and 12.
pub open spec fn is_uuid(s: Seq<char>) -> bool {
    &&& s.len() == 36
    &&& forall|i: int|
        0 <= i < 36 ==> {
            if i == 8 || i == 13 || i == 18 || i == 23 {
                s[i] == '-'
            } else {
                is_hex_digit(s[i])
            }
        }
}

/// One split of `s` as `<digits> '.' <alnum+> '.' <alnum+>` with the dots at
/// positions `i` and `j`.
pub open spec fn storage_id_split(s: Seq<char>, i: int, j: int) -> bool {
    &&& 1 <= i
    &&& i + 2 <= j
    &&& j + 2 <= s.len()
    &&& s[i] == '.'
    &&& s[j] == '.'
    &&& forall|k: int| 0 <= k < i ==> is_digit(s[k])
    &&& forall|k: int| i < k < j ==> is_alnum(s[k])
    &&& forall|k: int| j < k < s.len() ==> is_alnum(s[k])
}

/// The shark storage-node identifier pattern:
/// `^[0-9]+\.[A-Za-z0-9]+\.[A-Za-z0-9]+$`.
pub open spec fn is_storage_id(s: Seq<char>) -> bool {
    exists|i: int, j: int| storage_id_split(s, i, j)
}

pub open spec fn shark_valid(s: SharkV) -> bool {
    is_storage_id(s.manta_storage_id)
}

/// Every domain constraint of a valid object record.
pub open spec fn object_valid(o: ObjectV) -> bool {
    &&& o.mtime >= 0
    &&& o.vnode >= 0
    &&& is_uuid(o.owner)
    &&& o.etag.len() > 0 ==> is_uuid(o.etag)
    &&& o.object_id.len() > 0 ==> is_uuid(o.object_id)
    &&& forall|i: int| 0 <= i < o.sharks.len() ==> shark_valid(#[trigger] o.sharks[i])
}

/// Every domain constraint of a valid directory record.
pub open spec fn directory_valid(d: DirectoryV) -> bool {
    &&& d.mtime >= 0
    &&& d.vnode >= 0
    &&& is_uuid(d.owner)
}

/// Every domain constraint of a valid record.
pub open spec fn record_valid(r: RecordV) -> bool {
    match r {
        RecordV::Object(o) => object_valid(o),
        RecordV::Directory(d) => directory_valid(d),
    }
}

// ---------------------------------------------------------------------------
// Executable constraint checks
// ---------------------------------------------------------------------------

pub(crate) fn check_digit(c: char) -> (r: bool)
    ensures
        r == is_digit(c),
{
    let u: u32 = c as u32;
    48 <= u && u <= 57
}

fn check_hex_digit(c: char) -> (r: bool)
    ensures
        r == is_hex_digit(c),
{
    let u: u32 = c as u32;
    (48 <= u && u <= 57) || (97 <= u && u <= 102) || (65 <= u && u <= 70)
}

fn check_alnum(c: char) -> (r: bool)
    ensures
        r == is_alnum(c),
{
    let u: u32 = c as u32;
    (48 <= u && u <= 57) || (97 <= u && u <= 122) || (65 <= u && u <= 90)
}

/// Decide whether `s` is a canonical UUID string.
pub fn check_uuid(s: &str) -> (r: bool)
    ensures
        r == is_uuid(s@),
{
    let cs: Vec<char> = crate::trusted::str_chars(s);
    if cs.len() != 36 {
        return false;
    }
    let mut i: usize = 0;
    while i < 36
        invariant
            cs@ == s@,
            cs.len() == 36,
            0 <= i <= 36,
            forall|k: int|
                0 <= k < i ==> {
                    if k == 8 || k == 13 || k == 18 || k == 23 {
                        s@[k] == '-'
                    } else {
                        is_hex_digit(s@[k])
                    }
                },
        decreases 36 - i,
    {
        let c: char = cs[i];
        if i == 8 || i == 13 || i == 18 || i == 23 {
            if c != '-' {
                return false;
            }
        } else {
            if !check_hex_digit(c) {
                return false;
            }
        }
        i = i + 1;
    }
    true
}

/// Decide whether `s` matches the shark storage-id pattern.
pub fn check_storage_id(s: &str) -> (r: bool)
    ensures
        r == is_storage_id(s@),
{
    let cs: Vec<char> = crate::trusted::str_chars(s);
    let n: usize = cs.len();
    // Scan the leading digit run; the first dot of any split must end it.
    let mut i: usize = 0;
    while i < n && check_digit(cs[i as usize])
        invariant
            cs@ == s@,
            n == s@.len(),
            0 <= i <= n,
            forall|k: int| 0 <= k < i ==> is_digit(s@[k]),
        decreases n - i,
    {
        i = i + 1;
    }
    if i == 0 || i >= n || cs[i] != '.' {
        proof {
            assert forall|a: int, b: int| !storage_id_split(s@, a, b) by {
                if storage_id_split(s@, a, b) {
                    assert(!is_digit('.'));
                    // the dot at `a` ends the digit run, so a == i
                    assert(forall|k: int| 0 <= k < a ==> is_digit(s@[k]));
                    if a < i {
                        assert(is_digit(s@[a]));
                    }
                    if a > i {
                        assert(is_digit(s@[i as int]));
                    }
                    assert(a == i);
                }
            }
        }
        return false;
    }
    // Scan the middle alphanumeric run; the second dot of any split ends it.
    let dot1: usize = i;
    let mut j: usize = dot1 + 1;
    while j < n && check_alnum(cs[j as usize])
        invariant
            cs@ == s@,
            n == s@.len(),
            dot1 < j <= n,
            forall|k: int| dot1 < k < j ==> is_alnum(s@[k]),
        decreases n - j,
    {
        j = j + 1;
    }
    if j == dot1 + 1 || j >= n || cs[j] != '.' {
        proof {
            assert forall|a: int, b: int| !storage_id_split(s@, a, b) by {
                if storage_id_split(s@, a, b) {
                    assert(!is_digit('.'));
                    assert(!is_alnum('.'));
                    if a < dot1 {
                        assert(is_digit(s@[a]));
                    }
                    if a > dot1 {
                        assert(is_digit(s@[dot1 as int]));
                    }
                    assert(a == dot1);
                    if b < j {
                        assert(is_alnum(s@[b]));
                    }
                    if b > j && j < n {
                        assert(is_alnum(s@[j as int]));
                    }
                    assert(b == j);
                }
            }
        }
        return false;
    }
    // Check the trailing alphanumeric run.
    let dot2: usize = j;
    let mut k: usize = dot2 + 1;
    while k < n && check_alnum(cs[k as usize])
        invariant
            cs@ == s@,
            n == s@.len(),
            dot2 < k <= n,
            forall|m: int| dot2 < m < k ==> is_alnum(s@[m]),
        decreases n - k,
    {
        k = k + 1;
    }
    if k == n && dot2 + 1 < n {
        proof {
            assert(storage_id_split(s@, dot1 as int, dot2 as int));
        }
        true
    } else {
        proof {
            assert forall|a: int, b: int| !storage_id_split(s@, a, b) by {
                if storage_id_split(s@, a, b) {
                    assert(!is_digit('.'));
                    assert(!is_alnum('.'));
                    if a < dot1 {
                        assert(is_digit(s@[a]));
                    }
                    if a > dot1 {
                        assert(is_digit(s@[dot1 as int]));
                    }
                    assert(a == dot1);
                    if b < dot2 {
                        assert(is_alnum(s@[b]));
                    }
                    if b > dot2 {
                        assert(is_alnum(s@[dot2 as int]));
                    }
                    assert(b == dot2);
                    assert(is_alnum(s@[k as int]));
                }
            }
        }
        false
    }
}

// ---------------------------------------------------------------------------
// Validation
// ---------------------------------------------------------------------------

/// The violation, if any, that `validate` reports for an object: the first
/// failed check, in the documented field order.
pub open spec fn object_violation(o: ObjectV) -> Option<Seq<char>> {
    if o.mtime < 0 {
        Some("mtime"@)
    } else if o.vnode < 0 {
        Some("vnode"@)
    } else if !is_uuid(o.owner) {
        Some("owner"@)
    } else if o.etag.len() > 0 && !is_uuid(o.etag) {
        Some("etag"@)
    } else if o.object_id.len() > 0 && !is_uuid(o.object_id) {
        Some("object_id"@)
    } else if exists|i: int| 0 <= i < o.sharks.len() && !shark_valid(#[trigger] o.sharks[i]) {
        Some("sharks"@)
    } else {
        None
    }
}

pub open spec fn directory_violation(d: DirectoryV) -> Option<Seq<char>> {
    if d.mtime < 0 {
        Some("mtime"@)
    } else if d.vnode < 0 {
        Some("vnode"@)
    } else if !is_uuid(d.owner) {
        Some("owner"@)
    } else {
        None
    }
}

pub open spec fn record_violation(r: RecordV) -> Option<Seq<char>> {
    match r {
        RecordV::Object(o) => object_violation(o),
        RecordV::Directory(d) => directory_violation(d),
    }
}

/// A record passes validation exactly when it satisfies every domain
/// constraint; this ties `validate`'s outcome to `record_valid`.
pub proof fn lemma_violation_iff_valid(r: RecordV)
    ensures
        record_violation(r) is None <==> record_valid(r),
{
}

fn validate_object(o: &MantaObject) -> (r: Result<(), SchemaError>)
    ensures
        match r {
            Ok(()) => object_violation(o@) is None,
            Err(e) => object_violation(o@) matches Some(f) && e@ matches ErrV::InvalidFormat {
                field,
                reason: _,
            } && field == f,
        },
{
    if o.mtime < 0 {
        return Err(
            SchemaError::InvalidFormat {
                field: String::from_str("mtime"),
                reason: String::from_str("negative"),
            },
        );
    }
    if o.vnode < 0 {
        return Err(
            SchemaError::InvalidFormat {
                field: String::from_str("vnode"),
                reason: String::from_str("negative"),
            },
        );
    }
    if !check_uuid(o.owner.as_str()) {
        return Err(
            SchemaError::InvalidFormat {
                field: String::from_str("owner"),
                reason: String::from_str("not a UUID"),
            },
        );
    }
    if !o.etag.as_str().is_empty() && !check_uuid(o.etag.as_str()) {
        return Err(
            SchemaError::InvalidFormat {
                field: String::from_str("etag"),
                reason: String::from_str("not a UUID"),
            },
        );
    }
    if !o.object_id.as_str().is_empty() && !check_uuid(o.object_id.as_str()) {
        return Err(
            SchemaError::InvalidFormat {
                field: String::from_str("object_id"),
                reason: String::from_str("not a UUID"),
            },
        );
    }
    let mut i: usize = 0;
    while i < o.sharks.len()
        invariant
            forall|k: int| 0 <= k < i ==> shark_valid(#[trigger] o@.sharks[k]),
            i <= o.sharks.len(),
            o@.sharks.len() == o.sharks.len(),
            o@.mtime >= 0,
            o@.vnode >= 0,
            is_uuid(o@.owner),
            o@.etag.len() > 0 ==> is_uuid(o@.etag),
            o@.object_id.len() > 0 ==> is_uuid(o@.object_id),
        decreases o.sharks.len() - i,
    {
        assert(o@.sharks[i as int] == o.sharks[i as int]@);
        if !check_storage_id(o.sharks[i].manta_storage_id.as_str()) {
            proof {
                assert(!shark_valid(o@.sharks[i as int]));
            }
            return Err(
                SchemaError::InvalidFormat {
                    field: String::from_str("sharks"),
                    reason: String::from_str("manta_storage_id does not match the pattern"),
                },
            );
        }
        i = i + 1;
    }
    Ok(())
}

fn validate_directory(d: &MantaDirectory) -> (r: Result<(), SchemaError>)
    ensures
        match r {
            Ok(()) => directory_violation(d@) is None,
            Err(e) => directory_violation(d@) matches Some(f) && e@ matches ErrV::InvalidFormat {
                field,
                reason: _,
            } && field == f,
        },
{
    if d.mtime < 0 {
        return Err(
            SchemaError::InvalidFormat {
                field: String::from_str("mtime"),
                reason: String::from_str("negative"),
            },
        );
    }
    if d.vnode < 0 {
        return Err(
            SchemaError::InvalidFormat {
                field: String::from_str("vnode"),
                reason: String::from_str("negative"),
            },
        );
    }
    if !check_uuid(d.owner.as_str()) {
        return Err(
            SchemaError::InvalidFormat {
                field: String::from_str("owner"),
                reason: String::from_str("not a UUID"),
            },
        );
    }
    Ok(())
}

/// Check every domain constraint of a record: succeeds exactly on valid
/// records, and otherwise reports the first violating field.
pub fn validate(rec: &ObjectType) -> (r: Result<(), SchemaError>)
    ensures
        r is Ok <==> record_valid(rec@),
        match r {
            Ok(()) => record_violation(rec@) is None,
            Err(e) => record_violation(rec@) matches Some(f) && e@ matches ErrV::InvalidFormat {
                field,
                reason: _,
            } && field == f,
        },
{
    proof {
        lemma_violation_iff_valid(rec@);
    }
    match rec {
        ObjectType::Object(o) => validate_object(o),
        ObjectType::Directory(d) => validate_directory(d),
    }
}

} // verus!
