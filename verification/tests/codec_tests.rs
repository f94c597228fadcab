use moray::codec::{decode, encode, eq_records, from_storage_text, to_storage_text, to_storage_text_checked};
use moray::gen::produce_random_valid;
use moray::schema::{
    CodecError, MantaDirectory, MantaObject, MantaObjectShark, ObjectType, SchemaError, validate,
};

fn sample_uuid() -> String {
    String::from("b6b67a43-42a4-4453-9e60-7368e6a6ad80")
}

fn scenario_text() -> String {
    format!(
        "{{\"type\":\"object\",\"key\":\"k1\",\"mtime\":100,\"name\":\"n\",\"creator\":\"c\",\
         \"dirname\":\"/d\",\"owner\":\"{}\",\"roles\":[],\"vnode\":1,\"headers\":{{}},\
         \"sharks\":[{{\"datacenter\":\"dc1\",\"manta_storage_id\":\"1.stor.dc1\"}}]}}",
        sample_uuid()
    )
}

#[test]
fn decode_concrete_scenario_defaults() {
    let rec = decode(&scenario_text()).expect("scenario must decode");
    let o = match &rec {
        ObjectType::Object(o) => o,
        _ => panic!("expected an object record"),
    };
    assert_eq!(o.key, "k1");
    assert_eq!(o.mtime, 100);
    assert_eq!(o.name, "n");
    assert_eq!(o.creator, "c");
    assert_eq!(o.dirname, "/d");
    assert_eq!(o.owner, sample_uuid());
    assert_eq!(o.roles.len(), 0);
    assert_eq!(o.vnode, 1);
    assert_eq!(o.content_length, 0);
    assert_eq!(o.content_md5, "");
    assert_eq!(o.content_type, "");
    assert_eq!(o.object_id, "");
    assert_eq!(o.etag, "");
    assert_eq!(o.sharks.len(), 1);
    assert_eq!(o.sharks[0].datacenter, "dc1");
    assert_eq!(o.sharks[0].manta_storage_id, "1.stor.dc1");

    // Re-encoding emits every field, the defaults included.
    let text = encode(&rec);
    assert!(text.contains("\"contentLength\":0"));
    assert!(text.contains("\"contentMd5\":\"\""));
    assert!(text.contains("\"contentType\":\"\""));
    assert!(text.contains("\"objectId\":\"\""));
    assert!(text.contains("\"etag\":\"\""));
    let again = decode(&text).expect("re-encoded scenario must decode");
    assert_eq!(again, rec);
}

#[test]
fn round_trip_generated_records() {
    for seed in [1u64, 2, 3, 42, 1000] {
        let rec = produce_random_valid(seed);
        let text = encode(&rec);
        let back = decode(&text).expect("canonical text must decode");
        assert_eq!(back, rec);

        let stored = to_storage_text(&rec);
        let from_store = from_storage_text(&stored).expect("storage text must decode");
        assert_eq!(from_store, rec);
    }
}

#[test]
fn storage_text_matches_wire_text() {
    let rec = produce_random_valid(7);
    assert_eq!(encode(&rec), to_storage_text(&rec));
}

#[test]
fn checked_storage_text_confirms_round_trip() {
    for seed in [8u64, 9, 10] {
        let rec = produce_random_valid(seed);
        let checked = to_storage_text_checked(&rec).expect("round trip must hold");
        assert_eq!(checked, to_storage_text(&rec));
    }
}

#[test]
fn record_equality_is_field_wise() {
    let a = produce_random_valid(13);
    let b = produce_random_valid(13);
    let c = produce_random_valid(14);
    assert!(eq_records(&a, &b));
    assert!(!eq_records(&a, &c));
    assert_eq!(eq_records(&a, &b), a == b);
}

#[test]
fn alias_content_length_equivalence() {
    let canonical = format!(
        "{{\"type\":\"object\",\"key\":\"k\",\"mtime\":1,\"name\":\"n\",\"creator\":\"c\",\
         \"dirname\":\"/\",\"owner\":\"{}\",\"roles\":[],\"vnode\":2,\"headers\":{{}},\
         \"contentLength\":77}}",
        sample_uuid()
    );
    let aliased = canonical.replace("\"contentLength\":77", "\"content_length\":77");
    let omitted = canonical.replace(",\"contentLength\":77", "");
    let a = decode(&canonical).expect("canonical name must decode");
    let b = decode(&aliased).expect("alias must decode");
    assert_eq!(a, b);
    match decode(&omitted).expect("omitted field must default") {
        ObjectType::Object(o) => assert_eq!(o.content_length, 0),
        _ => panic!("expected an object record"),
    }
}

#[test]
fn discriminant_case_insensitive() {
    let lower = scenario_text();
    let upper = lower.replace("\"type\":\"object\"", "\"type\":\"Object\"");
    assert_eq!(decode(&lower).unwrap(), decode(&upper).unwrap());

    let dir_lower = format!(
        "{{\"type\":\"directory\",\"creator\":\"c\",\"dirname\":\"/\",\"headers\":{{}},\
         \"key\":\"k\",\"mtime\":3,\"name\":\"n\",\"owner\":\"{}\",\"roles\":[\"r\"],\"vnode\":4}}",
        sample_uuid()
    );
    let dir_upper = dir_lower.replace("\"type\":\"directory\"", "\"type\":\"Directory\"");
    assert_eq!(decode(&dir_lower).unwrap(), decode(&dir_upper).unwrap());
}

#[test]
fn encode_directory_exact_text() {
    let d = MantaDirectory {
        creator: String::from("c"),
        dirname: String::from("/"),
        headers: Vec::new(),
        key: String::from("k"),
        mtime: 5,
        name: String::from("n"),
        owner: String::from("00000000-0000-0000-0000-000000000000"),
        roles: Vec::new(),
        vnode: 7,
    };
    let text = encode(&ObjectType::Directory(d));
    assert_eq!(
        text,
        "{\"type\":\"directory\",\"creator\":\"c\",\"dirname\":\"/\",\"headers\":{},\
         \"key\":\"k\",\"mtime\":5,\"name\":\"n\",\
         \"owner\":\"00000000-0000-0000-0000-000000000000\",\"roles\":[],\"vnode\":7}"
    );
}

#[test]
fn escaping_round_trip() {
    let mut o = MantaObject::default();
    o.key = String::from("a\"b\\c\nd\te");
    o.name = String::from("line\u{1}ctl");
    o.headers = vec![(String::from("x-\"quoted\""), String::from("v\\w"))];
    o.owner = sample_uuid();
    o.creator = String::from("c");
    o.dirname = String::from("/");
    o.mtime = 1;
    o.vnode = 1;
    let rec = ObjectType::Object(o);
    let text = encode(&rec);
    let back = decode(&text).expect("escaped text must decode");
    assert_eq!(back, rec);
}

#[test]
fn integer_bounds_round_trip() {
    let mut o = MantaObject::default();
    o.owner = sample_uuid();
    o.mtime = i64::MAX;
    o.vnode = 0;
    o.content_length = u64::MAX;
    let rec = ObjectType::Object(o);
    let text = encode(&rec);
    assert!(text.contains("\"mtime\":9223372036854775807"));
    assert!(text.contains("\"contentLength\":18446744073709551615"));
    assert_eq!(decode(&text).unwrap(), rec);
}

#[test]
fn negative_mtime_decodes_but_fails_validation() {
    let text = scenario_text().replace("\"mtime\":100", "\"mtime\":-5");
    let rec = decode(&text).expect("a negative column value still decodes");
    match &rec {
        ObjectType::Object(o) => assert_eq!(o.mtime, -5),
        _ => panic!("expected an object record"),
    }
    match validate(&rec) {
        Err(SchemaError::InvalidFormat { field, .. }) => assert_eq!(field, "mtime"),
        other => panic!("expected an invalid-format error, got {:?}", other),
    }
}

#[test]
fn oversized_number_is_rejected() {
    // One past the unsigned 64-bit maximum cannot be represented.
    let text = scenario_text().replace("\"mtime\":100", "\"mtime\":18446744073709551616");
    assert_eq!(decode(&text), Err(SchemaError::Malformed));
}

#[test]
fn serde_interop_on_encoded_text() {
    let rec = decode(&scenario_text()).unwrap();
    let text = encode(&rec);
    let v: serde_json::Value = serde_json::from_str(&text).expect("canonical text is valid JSON");
    assert_eq!(v["type"], serde_json::Value::String(String::from("object")));
    assert_eq!(v["key"], serde_json::Value::String(String::from("k1")));
    assert_eq!(v["mtime"], serde_json::Value::from(100u64));
    assert_eq!(v["contentLength"], serde_json::Value::from(0u64));
    assert_eq!(
        v["sharks"][0]["manta_storage_id"],
        serde_json::Value::String(String::from("1.stor.dc1"))
    );
}

#[test]
fn decode_accepts_serde_emitted_text() {
    let mut m = serde_json::Map::new();
    m.insert(
        String::from("type"),
        serde_json::Value::String(String::from("directory")),
    );
    m.insert(String::from("creator"), serde_json::Value::String(String::from("me")));
    m.insert(String::from("dirname"), serde_json::Value::String(String::from("/x")));
    m.insert(
        String::from("headers"),
        serde_json::Value::Object(serde_json::Map::new()),
    );
    m.insert(String::from("key"), serde_json::Value::String(String::from("k")));
    m.insert(String::from("mtime"), serde_json::Value::from(9u64));
    m.insert(String::from("name"), serde_json::Value::String(String::from("x")));
    m.insert(String::from("owner"), serde_json::Value::String(sample_uuid()));
    m.insert(String::from("roles"), serde_json::Value::Array(Vec::new()));
    m.insert(String::from("vnode"), serde_json::Value::from(3u64));
    let text = serde_json::to_string(&serde_json::Value::Object(m)).unwrap();
    let rec = decode(&text).expect("serde-compact text must decode");
    match rec {
        ObjectType::Directory(d) => {
            assert_eq!(d.creator, "me");
            assert_eq!(d.mtime, 9);
        },
        _ => panic!("expected a directory record"),
    }
}

#[test]
fn corrupted_storage_text_is_codec_error() {
    let r = from_storage_text("{not json");
    match r {
        Err(CodecError { cause }) => assert_eq!(cause, SchemaError::Malformed),
        Ok(_) => panic!("corrupted text must not decode"),
    }
    assert!(from_storage_text("").is_err());
    assert!(from_storage_text("[1,2,3]").is_err());
    assert!(from_storage_text("{\"type\":\"object\"").is_err());
}

#[test]
fn missing_required_field_error() {
    let text = scenario_text().replace("\"key\":\"k1\",", "");
    match decode(&text) {
        Err(SchemaError::MissingField { field }) => assert_eq!(field, "key"),
        other => panic!("expected a missing-field error, got {:?}", other),
    }
}

#[test]
fn type_mismatch_error() {
    let text = scenario_text().replace("\"mtime\":100", "\"mtime\":\"soon\"");
    match decode(&text) {
        Err(SchemaError::TypeMismatch { field, .. }) => assert_eq!(field, "mtime"),
        other => panic!("expected a type-mismatch error, got {:?}", other),
    }
}

#[test]
fn unknown_discriminant_error() {
    let text = scenario_text().replace("\"type\":\"object\"", "\"type\":\"link\"");
    match decode(&text) {
        Err(SchemaError::TypeMismatch { field, .. }) => assert_eq!(field, "type"),
        other => panic!("expected a type-mismatch error, got {:?}", other),
    }
}

#[test]
fn malformed_owner_rejected_by_validate() {
    let text = scenario_text().replace(&sample_uuid(), "not-a-uuid");
    let rec = decode(&text).expect("decode does not itself validate");
    match validate(&rec) {
        Err(SchemaError::InvalidFormat { field, .. }) => assert_eq!(field, "owner"),
        other => panic!("expected an invalid-format error, got {:?}", other),
    }
}

#[test]
fn validate_rejects_bad_shark_and_negative_mtime() {
    let mut o = MantaObject::default();
    o.owner = sample_uuid();
    o.sharks = vec![MantaObjectShark {
        datacenter: String::from("dc"),
        manta_storage_id: String::from("nodots"),
    }];
    match validate(&ObjectType::Object(o)) {
        Err(SchemaError::InvalidFormat { field, .. }) => assert_eq!(field, "sharks"),
        other => panic!("expected an invalid-format error, got {:?}", other),
    }

    let mut neg = MantaObject::default();
    neg.owner = sample_uuid();
    neg.mtime = -1;
    match validate(&ObjectType::Object(neg)) {
        Err(SchemaError::InvalidFormat { field, .. }) => assert_eq!(field, "mtime"),
        other => panic!("expected an invalid-format error, got {:?}", other),
    }
}

#[test]
fn validate_accepts_valid_record() {
    let rec = decode(&scenario_text()).unwrap();
    assert!(validate(&rec).is_ok());
}
