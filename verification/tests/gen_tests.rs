use moray::gen::{produce_random_valid, random_string};
use moray::schema::{check_storage_id, check_uuid, validate, ObjectType};
use rand::SeedableRng;

fn storage_id_matches_pattern(s: &str) -> bool {
    // ^[0-9]+\.[A-Za-z0-9]+\.[A-Za-z0-9]+$
    let parts: Vec<&str> = s.split('.').collect();
    parts.len() == 3
        && !parts[0].is_empty()
        && parts[0].chars().all(|c| c.is_ascii_digit())
        && !parts[1].is_empty()
        && parts[1].chars().all(|c| c.is_ascii_alphanumeric())
        && !parts[2].is_empty()
        && parts[2].chars().all(|c| c.is_ascii_alphanumeric())
}

#[test]
fn generated_records_are_valid() {
    for seed in [0u64, 1, 2, 99, 12345] {
        let rec = produce_random_valid(seed);
        assert!(validate(&rec).is_ok());
    }
}

#[test]
fn generated_uuid_fields_parse() {
    for seed in [4u64, 5, 6] {
        let rec = produce_random_valid(seed);
        let o = match &rec {
            ObjectType::Object(o) => o,
            _ => panic!("the generator produces object records"),
        };
        assert!(check_uuid(&o.owner));
        assert!(check_uuid(&o.etag));
        assert!(check_uuid(&o.object_id));
        assert!(uuid::Uuid::parse_str(&o.owner).is_ok());
        assert!(uuid::Uuid::parse_str(&o.etag).is_ok());
        assert!(uuid::Uuid::parse_str(&o.object_id).is_ok());
        assert_eq!(
            uuid::Uuid::parse_str(&o.owner).unwrap().to_string(),
            o.owner
        );
    }
}

#[test]
fn generated_sharks_match_pattern() {
    for seed in [10u64, 11, 12] {
        let rec = produce_random_valid(seed);
        let o = match &rec {
            ObjectType::Object(o) => o,
            _ => panic!("the generator produces object records"),
        };
        assert_eq!(o.sharks.len(), 2);
        for shark in o.sharks.iter() {
            assert!(check_storage_id(&shark.manta_storage_id));
            assert!(storage_id_matches_pattern(&shark.manta_storage_id));
        }
    }
}

#[test]
fn generated_integers_non_negative() {
    for seed in [20u64, 21, 22] {
        match produce_random_valid(seed) {
            ObjectType::Object(o) => {
                assert!(o.mtime >= 0);
                assert!(o.vnode >= 0);
            },
            _ => panic!("the generator produces object records"),
        }
    }
}

#[test]
fn generator_is_deterministic_in_the_seed() {
    let a = produce_random_valid(77);
    let b = produce_random_valid(77);
    assert_eq!(a, b);
}

#[test]
fn generated_md5_is_digest_shaped() {
    match produce_random_valid(31) {
        ObjectType::Object(o) => {
            // base64 of a 16-byte digest: 24 characters with two-char padding
            assert_eq!(o.content_md5.len(), 24);
            assert!(o.content_md5.ends_with("=="));
            let decoded = base64::decode(&o.content_md5).expect("valid base64");
            assert_eq!(decoded.len(), 16);
            let text = moray::codec::encode(&ObjectType::Object(o));
            assert!(!text.is_empty());
        },
        _ => panic!("the generator produces object records"),
    }
}

#[test]
fn random_string_is_alphanumeric() {
    let mut g = rand::rngs::StdRng::seed_from_u64(5);
    let s = random_string(&mut g, 40);
    assert_eq!(s.len(), 40);
    assert!(s.chars().all(|c| c.is_ascii_alphanumeric()));
    let empty = random_string(&mut g, 0);
    assert_eq!(empty, "");
}

#[test]
fn check_uuid_rejects_bad_forms() {
    assert!(check_uuid("b6b67a43-42a4-4453-9e60-7368e6a6ad80"));
    assert!(!check_uuid("not-a-uuid"));
    assert!(!check_uuid("b6b67a43-42a4-4453-9e60-7368e6a6ad8"));
    assert!(!check_uuid("b6b67a43x42a4-4453-9e60-7368e6a6ad80"));
    assert!(!check_uuid(""));
}

#[test]
fn check_storage_id_rejects_bad_forms() {
    assert!(check_storage_id("1.stor.dc1"));
    assert!(check_storage_id("42.abc123.XYZ"));
    assert!(!check_storage_id("stor.dc1"));
    assert!(!check_storage_id(".stor.dc1"));
    assert!(!check_storage_id("1.stor."));
    assert!(!check_storage_id("1..dc1"));
    assert!(!check_storage_id("1.stor.dc1.extra"));
    assert!(!check_storage_id("x.stor.dc1"));
}
