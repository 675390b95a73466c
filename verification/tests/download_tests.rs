use scoopie::downloader::{check_artifact, DownloadConfig, Downloader};
use scoopie::manifest::{License, Manifest, OneOrMany};
use scoopie::plan::DownloadEntry;
use scoopie::registry::{Bucket, Buckets};
use sha2::Digest;

fn sha256_hex(data: &[u8]) -> String {
    let digest = sha2::Sha256::digest(data);
    let mut out = String::new();
    for b in digest.iter() {
        out.push_str(&format!("{:02x}", b));
    }
    out
}

fn manifest_for(url: &str, hash: Option<String>) -> Manifest {
    Manifest {
        version: "1.0".to_string(),
        description: "demo app".to_string(),
        homepage: "https://example.com".to_string(),
        license: License::Id("MIT".to_string()),
        url: Some(OneOrMany::One(url.to_string())),
        hash: hash.map(OneOrMany::One),
        extras: Vec::new(),
    }
}

fn registry_with(app: &str, m: Manifest) -> Buckets {
    Buckets(vec![("main".to_string(), Bucket(vec![(app.to_string(), m)]))])
}

fn config() -> DownloadConfig {
    DownloadConfig {
        download_dir: "/tmp/cache".to_string(),
        max_retries: 3,
        concurrent_downloads: 4,
    }
}

#[test]
fn matching_hash_verifies() {
    let bytes: Vec<u8> = b"payload".to_vec();
    let h = sha256_hex(&bytes);
    assert!(check_artifact(&Some(h), &bytes));
}

#[test]
fn mismatched_hash_fails_verification() {
    let bytes: Vec<u8> = b"payload".to_vec();
    let other = sha256_hex(b"tampered");
    assert!(!check_artifact(&Some(other), &bytes));
}

#[test]
fn artifact_without_hash_never_fails_verification() {
    let bytes: Vec<u8> = b"anything at all".to_vec();
    assert!(check_artifact(&None, &bytes));
}

#[test]
fn entry_verification_is_the_aggregate_and() {
    let bytes_a: Vec<u8> = b"first".to_vec();
    let bytes_b: Vec<u8> = b"second".to_vec();
    let m = Manifest {
        url: Some(OneOrMany::Many(vec![
            "https://example.com/a.zip".to_string(),
            "https://example.com/b.zip".to_string(),
        ])),
        hash: Some(OneOrMany::Many(vec![sha256_hex(&bytes_a), sha256_hex(&bytes_b)])),
        ..manifest_for("https://example.com/x", None)
    };
    let r = registry_with("foo", m);
    let e = DownloadEntry::fetch(&r, "foo").unwrap();
    assert!(e.verify(&vec![bytes_a.clone(), bytes_b.clone()]));
    assert!(!e.verify(&vec![bytes_a.clone(), bytes_a.clone()]));
}

#[test]
fn second_run_with_everything_cached_fetches_nothing() {
    let m = Manifest {
        url: Some(OneOrMany::Many(vec![
            "https://example.com/a.zip".to_string(),
            "https://example.com/b.zip".to_string(),
        ])),
        hash: None,
        ..manifest_for("https://example.com/x", None)
    };
    let r = registry_with("foo", m);
    let d = Downloader::resolve(&r, &config(), "foo").unwrap();
    let (pending, already_cached) = d.to_fetch(&vec![true, true]);
    assert!(already_cached);
    assert_eq!(pending.len(), 0);
    let (pending, already_cached) = d.to_fetch(&vec![true, false]);
    assert!(!already_cached);
    assert_eq!(pending.len(), 1);
    assert_eq!(pending[0].url, "https://example.com/b.zip");
}

#[test]
fn end_to_end_single_artifact_scenario() {
    let bytes: Vec<u8> = b"the foo payload".to_vec();
    let h = sha256_hex(&bytes);
    let r = registry_with("foo", manifest_for("https://example.com/foo.zip", Some(h)));
    let d = Downloader::resolve(&r, &config(), "foo").unwrap();
    assert_eq!(d.max_retries, 3);
    assert_eq!(d.concurrent, 4);
    assert_eq!(d.item.artifacts.len(), 1);
    assert_eq!(d.item.artifacts[0].file_name, "foo_1.0_foo.zip");
    // cache empty: the whole plan is fetched
    let (pending, already_cached) = d.to_fetch(&vec![false]);
    assert!(!already_cached);
    assert_eq!(pending.len(), 1);
    assert_eq!(pending[0].file_name, "foo_1.0_foo.zip");
    // after the transfer the cached bytes verify against the declared hash
    assert!(d.item.verify(&vec![bytes]));
}

#[test]
fn resolve_trims_and_lowercases_bare_names() {
    let r = registry_with("foo", manifest_for("https://example.com/foo.zip", None));
    let d = Downloader::resolve(&r, &config(), "  FOO  ").unwrap();
    assert_eq!(d.item.app_name, "foo");
}

#[test]
fn resolve_honours_bucket_qualifier_verbatim() {
    let r = registry_with("foo", manifest_for("https://example.com/foo.zip", None));
    let d = Downloader::resolve(&r, &config(), "main/foo").unwrap();
    assert_eq!(d.item.app_name, "foo");
    let err = Downloader::resolve(&r, &config(), "other/foo").unwrap_err();
    assert_eq!(
        err,
        scoopie::error::ScoopieError::NoAppFoundInBucket("foo".to_string(), "other".to_string())
    );
}
