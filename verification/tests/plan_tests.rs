use scoopie::error::ScoopieError;
use scoopie::manifest::{License, Manifest, OneOrMany};
use scoopie::plan::DownloadEntry;
use scoopie::registry::{Bucket, Buckets};

fn manifest_with(url: Option<OneOrMany>, hash: Option<OneOrMany>) -> Manifest {
    Manifest {
        version: "1.0".to_string(),
        description: "demo app".to_string(),
        homepage: "https://example.com".to_string(),
        license: License::Id("MIT".to_string()),
        url,
        hash,
        extras: Vec::new(),
    }
}

fn registry_with(app: &str, m: Manifest) -> Buckets {
    Buckets(vec![("main".to_string(), Bucket(vec![(app.to_string(), m)]))])
}

#[test]
fn plan_pairs_each_url_with_its_hash() {
    let m = manifest_with(
        Some(OneOrMany::Many(vec![
            "https://example.com/a.zip".to_string(),
            "https://example.com/b.zip".to_string(),
        ])),
        Some(OneOrMany::Many(vec!["h1".to_string(), "h2".to_string()])),
    );
    let r = registry_with("foo", m);
    let e = DownloadEntry::fetch(&r, "foo").unwrap();
    assert_eq!(e.app_name, "foo");
    assert_eq!(e.version, "1.0");
    assert_eq!(e.artifacts.len(), 2);
    assert_eq!(e.artifacts[0].url, "https://example.com/a.zip");
    assert_eq!(e.artifacts[0].hash, Some("h1".to_string()));
    assert_eq!(e.artifacts[1].url, "https://example.com/b.zip");
    assert_eq!(e.artifacts[1].hash, Some("h2".to_string()));
}

#[test]
fn destination_name_is_deterministic_single_segment() {
    let m = manifest_with(
        Some(OneOrMany::One("https://example.com/foo.zip".to_string())),
        Some(OneOrMany::One("h".to_string())),
    );
    let r = registry_with("foo", m);
    let e = DownloadEntry::fetch(&r, "foo").unwrap();
    assert_eq!(e.artifacts[0].file_name, "foo_1.0_foo.zip");
}

#[test]
fn destination_name_includes_path_and_fragment() {
    let m = manifest_with(
        Some(OneOrMany::One("https://example.com/dl/foo.zip#tag".to_string())),
        None,
    );
    let r = registry_with("foo", m);
    let e = DownloadEntry::fetch(&r, "foo").unwrap();
    assert_eq!(e.artifacts[0].file_name, "foo_1.0_dl_foo.ziptag");
    assert_eq!(e.artifacts[0].hash, None);
}

#[test]
fn absent_app_fails_with_no_app_found() {
    let r = registry_with("foo", manifest_with(None, None));
    assert_eq!(
        DownloadEntry::fetch(&r, "nope").unwrap_err(),
        ScoopieError::NoAppFound("nope".to_string())
    );
}

#[test]
fn absent_app_in_bucket_fails_with_bucket_error() {
    let r = registry_with("foo", manifest_with(None, None));
    assert_eq!(
        DownloadEntry::fetch_from(&r, "foo", "missing").unwrap_err(),
        ScoopieError::NoAppFoundInBucket("foo".to_string(), "missing".to_string())
    );
}

#[test]
fn unparsable_url_fails_with_manifest_invalid() {
    let m = manifest_with(Some(OneOrMany::One("not a url".to_string())), None);
    let r = registry_with("foo", m);
    assert_eq!(
        DownloadEntry::fetch(&r, "foo").unwrap_err(),
        ScoopieError::ManifestInvalid
    );
}

#[test]
fn manifest_without_urls_plans_nothing() {
    let r = registry_with("foo", manifest_with(None, None));
    let e = DownloadEntry::fetch(&r, "foo").unwrap();
    assert_eq!(e.artifacts.len(), 0);
}
