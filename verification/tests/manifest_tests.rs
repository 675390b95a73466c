use scoopie::error::ScoopieError;
use scoopie::manifest::{Item, License, Manifest, OneOrMany};

fn doc_foo() -> Vec<(String, Item)> {
    vec![
        ("version".to_string(), Item::Str("1.0".to_string())),
        ("description".to_string(), Item::Str("demo app".to_string())),
        ("homepage".to_string(), Item::Str("https://example.com".to_string())),
        ("license".to_string(), Item::Str("MIT".to_string())),
        ("url".to_string(), Item::Str("https://example.com/foo.zip".to_string())),
        ("hash".to_string(), Item::Str("abc123".to_string())),
        ("notes".to_string(), Item::Raw("[\"a note\"]".to_string())),
        ("innosetup".to_string(), Item::Raw("true".to_string())),
    ]
}

#[test]
fn parse_reads_required_fields() {
    let m = Manifest::parse(&doc_foo()).unwrap();
    assert_eq!(m.version, "1.0");
    assert_eq!(m.description, "demo app");
    assert_eq!(m.homepage, "https://example.com");
    assert_eq!(m.license, License::Id("MIT".to_string()));
    assert_eq!(m.url, Some(OneOrMany::One("https://example.com/foo.zip".to_string())));
    assert_eq!(m.hash, Some(OneOrMany::One("abc123".to_string())));
    assert_eq!(m.extras.len(), 2);
    assert_eq!(m.extras[0].0, "notes");
    assert_eq!(m.extras[1].0, "innosetup");
}

#[test]
fn parse_missing_version_is_invalid() {
    let doc: Vec<(String, Item)> = doc_foo().into_iter().filter(|kv| kv.0 != "version").collect();
    assert_eq!(Manifest::parse(&doc).unwrap_err(), ScoopieError::ManifestInvalid);
}

#[test]
fn parse_mistyped_description_is_invalid() {
    let mut doc = doc_foo();
    doc[1].1 = Item::List(vec!["x".to_string()]);
    assert_eq!(Manifest::parse(&doc).unwrap_err(), ScoopieError::ManifestInvalid);
}

#[test]
fn parse_license_accepts_table() {
    let mut doc = doc_foo();
    doc[3].1 = Item::Table(vec![
        ("identifier".to_string(), "MIT".to_string()),
        ("url".to_string(), "https://example.com/mit".to_string()),
    ]);
    let m = Manifest::parse(&doc).unwrap();
    match m.license {
        License::Meta(t) => assert_eq!(t[0].1, "MIT"),
        _ => panic!("expected a structured license"),
    }
}

#[test]
fn parse_license_rejects_other_shapes() {
    let mut doc = doc_foo();
    doc[3].1 = Item::Raw("17".to_string());
    assert_eq!(Manifest::parse(&doc).unwrap_err(), ScoopieError::ManifestInvalid);
}

#[test]
fn parse_url_hash_length_mismatch_is_invalid() {
    let mut doc = doc_foo();
    doc[4].1 = Item::List(vec!["https://a/x".to_string(), "https://a/y".to_string()]);
    doc[5].1 = Item::List(vec!["h1".to_string()]);
    assert_eq!(Manifest::parse(&doc).unwrap_err(), ScoopieError::ManifestInvalid);
}

#[test]
fn parse_url_list_with_hash_list_of_equal_length_is_valid() {
    let mut doc = doc_foo();
    doc[4].1 = Item::List(vec!["https://a/x".to_string(), "https://a/y".to_string()]);
    doc[5].1 = Item::List(vec!["h1".to_string(), "h2".to_string()]);
    let m = Manifest::parse(&doc).unwrap();
    assert_eq!(m.urls(), vec!["https://a/x".to_string(), "https://a/y".to_string()]);
    assert_eq!(m.hashes(), vec![Some("h1".to_string()), Some("h2".to_string())]);
}

#[test]
fn parse_without_urls_is_valid_and_unverifiable() {
    let doc: Vec<(String, Item)> = doc_foo()
        .into_iter()
        .filter(|kv| kv.0 != "url" && kv.0 != "hash")
        .collect();
    let m = Manifest::parse(&doc).unwrap();
    assert_eq!(m.url, None);
    assert_eq!(m.urls(), Vec::<String>::new());
    assert_eq!(m.hashes(), Vec::<Option<String>>::new());
}

#[test]
fn hashes_are_absent_when_manifest_declares_none() {
    let doc: Vec<(String, Item)> = doc_foo().into_iter().filter(|kv| kv.0 != "hash").collect();
    let m = Manifest::parse(&doc).unwrap();
    assert_eq!(m.hashes(), vec![None]);
}

#[test]
fn round_trip_preserves_every_field_present() {
    let m = Manifest::parse(&doc_foo()).unwrap();
    let doc2 = m.serialize();
    let m2 = Manifest::parse(&doc2).unwrap();
    assert_eq!(m2, m);
}

#[test]
fn round_trip_preserves_list_shapes_and_unknown_fields() {
    let mut doc = doc_foo();
    doc[4].1 = Item::List(vec!["https://a/x".to_string()]);
    doc[5].1 = Item::List(vec!["h1".to_string()]);
    let m = Manifest::parse(&doc).unwrap();
    let m2 = Manifest::parse(&m.serialize()).unwrap();
    assert_eq!(m2.url, Some(OneOrMany::Many(vec!["https://a/x".to_string()])));
    assert_eq!(m2.extras, m.extras);
    assert_eq!(m2, m);
}

#[test]
fn first_occurrence_of_a_typed_key_wins() {
    let mut doc = doc_foo();
    doc.push(("version".to_string(), Item::Str("9.9".to_string())));
    let m = Manifest::parse(&doc).unwrap();
    assert_eq!(m.version, "1.0");
    // the shadowed occurrence is not kept among the extras either
    assert!(m.extras.iter().all(|kv| kv.0 != "version"));
    let m2 = Manifest::parse(&m.serialize()).unwrap();
    assert_eq!(m2, m);
}
