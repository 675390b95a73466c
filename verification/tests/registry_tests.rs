use scoopie::manifest::{License, Manifest};
use scoopie::registry::{Bucket, Buckets};

fn manifest(version: &str, description: &str) -> Manifest {
    Manifest {
        version: version.to_string(),
        description: description.to_string(),
        homepage: "https://example.com".to_string(),
        license: License::Id("MIT".to_string()),
        url: None,
        hash: None,
        extras: Vec::new(),
    }
}

fn registry() -> Buckets {
    Buckets(vec![
        (
            "main".to_string(),
            Bucket(vec![
                ("foo".to_string(), manifest("1.0", "the foo tool")),
                ("bar".to_string(), manifest("2.0", "the bar tool")),
            ]),
        ),
        (
            "extras".to_string(),
            Bucket(vec![
                ("baz".to_string(), manifest("3.0", "the baz tool")),
                ("foo".to_string(), manifest("9.9", "shadowed foo")),
            ]),
        ),
    ])
}

#[test]
fn get_app_from_finds_exact_bucket() {
    let r = registry();
    let m = r.get_app_from("baz", "extras").unwrap();
    assert_eq!(m.version, "3.0");
    assert!(r.get_app_from("baz", "main").is_none());
    assert!(r.get_app_from("baz", "missing").is_none());
}

#[test]
fn get_app_takes_first_match_across_buckets() {
    let r = registry();
    let m = r.get_app("foo").unwrap();
    assert_eq!(m.version, "1.0");
}

#[test]
fn unique_app_agrees_between_lookups() {
    let r = registry();
    let via_all = r.get_app("baz").unwrap();
    let via_bucket = r.get_app_from("baz", "extras").unwrap();
    assert_eq!(via_all, via_bucket);
}

#[test]
fn absent_app_is_not_found() {
    let r = registry();
    assert!(r.get_app("nope").is_none());
    assert!(r.get_app_from("nope", "main").is_none());
}

#[test]
fn listing_is_order_stable_plain_text() {
    let r = Buckets(vec![(
        "main".to_string(),
        Bucket(vec![("foo".to_string(), manifest("1.0", "the foo tool"))]),
    )]);
    assert_eq!(r.listing(), "foo/main  v1.0\n  the foo tool\n");
}

#[test]
fn listing_walks_buckets_in_order() {
    let r = registry();
    let expected = "foo/main  v1.0\n  the foo tool\nbar/main  v2.0\n  the bar tool\nbaz/extras  v3.0\n  the baz tool\nfoo/extras  v9.9\n  shadowed foo\n";
    assert_eq!(r.listing(), expected);
}

#[test]
fn empty_registry_lists_nothing_and_finds_nothing() {
    let r = Buckets(Vec::new());
    assert_eq!(r.listing(), "");
    assert!(r.get_app("foo").is_none());
}
