//! Deriving the concrete download plan for one app: resolve the manifest,
//! pair each URL with its positional hash, and name the destination file
//! deterministically. Pure derivation, no I/O.

use crate::error::ScoopieError;
use crate::manifest::{
    spec_hashes, spec_urls, urls_hashes_consistent, Manifest, ManifestV, OneOrMany,
};
use crate::registry::{spec_get_app, spec_get_app_from, Buckets};
use crate::text::{sanitize, sanitized};
use vstd::prelude::*;

verus! {

/// One concrete download unit: destination file name, expected hash (when
/// the manifest declares one), source URL.
#[derive(Debug, PartialEq)]
pub struct ResolvedArtifact {
    pub file_name: String,
    pub hash: Option<String>,
    pub url: String,
}

#[verifier::ext_equal]
pub struct ResolvedArtifactV {
    pub file_name: Seq<char>,
    pub hash: Option<Seq<char>>,
    pub url: Seq<char>,
}

impl DeepView for ResolvedArtifact {
    type V = ResolvedArtifactV;

    open spec fn deep_view(&self) -> ResolvedArtifactV {
        ResolvedArtifactV { file_name: self.file_name@, hash: self.hash.deep_view(), url: self.url@ }
    }
}

/// One app's full download unit of work.
#[derive(Debug, PartialEq)]
pub struct DownloadEntry {
    pub app_name: String,
    pub version: String,
    pub artifacts: Vec<ResolvedArtifact>,
}

#[verifier::ext_equal]
pub struct DownloadEntryV {
    pub app_name: Seq<char>,
    pub version: Seq<char>,
    pub artifacts: Seq<ResolvedArtifactV>,
}

impl DeepView for DownloadEntry {
    type V = DownloadEntryV;

    open spec fn deep_view(&self) -> DownloadEntryV {
        DownloadEntryV {
            app_name: self.app_name@,
            version: self.version@,
            artifacts: self.artifacts.deep_view(),
        }
    }
}

/// Whether the url crate accepts `s` as a URL: a function of the characters
/// alone.
pub uninterp spec fn url_is_valid(s: Seq<char>) -> bool;

/// The path component of a parsed URL.
pub uninterp spec fn url_path_of(s: Seq<char>) -> Seq<char>;

/// The fragment of a parsed URL, or empty when it has none.
pub uninterp spec fn url_fragment_of(s: Seq<char>) -> Seq<char>;

/// Relies on url::Url::parse, Url::path and Url::fragment: whether a string
/// parses, and the parsed URL's path and fragment, depend on the string
/// alone.
#[verifier::external_body]
fn parse_url_parts(s: &str) -> (r: Option<(String, String)>)
    ensures
        r is Some <==> url_is_valid(s@),
        r matches Some(p) ==> p.0@ == url_path_of(s@) && p.1@ == url_fragment_of(s@),
{
    match url::Url::parse(s) {
        Ok(u) => {
            let path = u.path().to_owned();
            let frag = match u.fragment() {
                Some(f) => f.to_owned(),
                None => String::new(),
            };
            Some((path, frag))
        },
        Err(_) => None,
    }
}

/// The deterministic destination file name:
/// `{app}_{version}{url path}{url fragment}` with every `/` replaced by `_`,
/// so the name is a single path segment.
pub open spec fn artifact_file_name(app: Seq<char>, version: Seq<char>, url: Seq<char>) -> Seq<
    char,
> {
    sanitized(app + "_"@ + version + url_path_of(url) + url_fragment_of(url))
}

/// The planned artifact list: URL `i` paired with hash `i` (or none), under
/// its deterministic destination name.
pub open spec fn spec_artifacts(app: Seq<char>, m: ManifestV) -> Seq<ResolvedArtifactV> {
    Seq::new(
        spec_urls(m).len(),
        |i: int|
            ResolvedArtifactV {
                file_name: artifact_file_name(app, m.version, spec_urls(m)[i]),
                hash: spec_hashes(m)[i],
                url: spec_urls(m)[i],
            },
    )
}

/// Every URL the manifest lists parses.
pub open spec fn all_urls_valid(m: ManifestV) -> bool {
    forall|i: int| 0 <= i < spec_urls(m).len() ==> url_is_valid(#[trigger] spec_urls(m)[i])
}

/// The download entry a manifest yields for `app`, or nothing when the
/// manifest itself is unusable: URL and hash shapes disagreeing, or a URL
/// that does not parse.
pub open spec fn spec_entry_for(app: Seq<char>, m: ManifestV) -> Option<DownloadEntryV> {
    if urls_hashes_consistent(m.url, m.hash) && all_urls_valid(m) {
        Some(
            DownloadEntryV {
                app_name: app,
                version: m.version,
                artifacts: spec_artifacts(app, m),
            },
        )
    } else {
        None
    }
}

/// For a manifest with URL list and hash list both of length N, the plan has
/// exactly N artifacts, pairing URL[i] with hash[i].
pub proof fn lemma_plan_pairs_positionally(
    app: Seq<char>,
    m: ManifestV,
    us: Seq<Seq<char>>,
    hs: Seq<Seq<char>>,
)
    requires
        m.url == Some(crate::manifest::OneOrManyV::Many(us)),
        m.hash == Some(crate::manifest::OneOrManyV::Many(hs)),
        us.len() == hs.len(),
    ensures
        spec_artifacts(app, m).len() == us.len(),
        forall|i: int| 0 <= i < us.len() ==> (#[trigger] spec_artifacts(app, m)[i]).url == us[i],
        forall|i: int|
            0 <= i < us.len() ==> (#[trigger] spec_artifacts(app, m)[i]).hash == Some(hs[i]),
{
}

fn clone_opt_string(o: &Option<String>) -> (r: Option<String>)
    ensures
        r.deep_view() == o.deep_view(),
{
    match o {
        Some(s) => Some(s.clone()),
        None => None,
    }
}

/// Builds the entry for a resolved manifest: checks the URL/hash shapes,
/// parses each URL and derives the destination names.
fn entry_for(app_name: &str, m: &Manifest) -> (r: Result<DownloadEntry, ScoopieError>)
    ensures
        match spec_entry_for(app_name@, m.deep_view()) {
            Some(ev) => r matches Ok(e) && e.deep_view() == ev,
            None => r matches Err(ScoopieError::ManifestInvalid),
        },
{
    let ghost mv = m.deep_view();
    let consistent: bool = match (&m.url, &m.hash) {
        (_, None) => true,
        (None, Some(_)) => true,
        (Some(OneOrMany::One(_)), Some(OneOrMany::One(_))) => true,
        (Some(OneOrMany::Many(us)), Some(OneOrMany::Many(hs))) => us.len() == hs.len(),
        _ => false,
    };
    if !consistent {
        return Err(ScoopieError::ManifestInvalid);
    }
    proof {
        crate::manifest::lemma_hashes_align_with_urls(mv);
    }
    let urls = m.urls();
    let hashes = m.hashes();
    let mut artifacts: Vec<ResolvedArtifact> = Vec::new();
    let mut i: usize = 0;
    while i < urls.len()
        invariant
            0 <= i <= urls.len(),
            mv == m.deep_view(),
            urls.deep_view() == spec_urls(mv),
            hashes.deep_view() == spec_hashes(mv),
            urls@.len() == spec_urls(mv).len(),
            hashes@.len() == urls@.len(),
            artifacts.deep_view() =~= spec_artifacts(app_name@, mv).take(i as int),
            forall|j: int| 0 <= j < i ==> url_is_valid(#[trigger] spec_urls(mv)[j]),
        decreases urls.len() - i,
    {
        let parts = parse_url_parts(urls[i].as_str());
        match parts {
            None => {
                proof {
                    assert(urls.deep_view()[i as int] == urls@[i as int]@);
                    assert(!url_is_valid(spec_urls(mv)[i as int]));
                }
                return Err(ScoopieError::ManifestInvalid);
            },
            Some((path, frag)) => {
                let mut base = String::new();
                base.append(app_name);
                base.append("_");
                base.append(m.version.as_str());
                base.append(path.as_str());
                base.append(frag.as_str());
                let file_name = sanitize(base.as_str());
                let ghost prev = artifacts.deep_view();
                artifacts.push(
                    ResolvedArtifact { file_name, hash: clone_opt_string(&hashes[i]), url: urls[i].clone() },
                );
                proof {
                    assert(artifacts.deep_view() =~= prev.push(
                        spec_artifacts(app_name@, mv)[i as int],
                    ));
                    assert(spec_artifacts(app_name@, mv).take(i + 1) =~= spec_artifacts(
                        app_name@,
                        mv,
                    ).take(i as int).push(spec_artifacts(app_name@, mv)[i as int]));
                }
            },
        }
        i = i + 1;
    }
    proof {
        assert(spec_artifacts(app_name@, mv).take(urls@.len() as int) =~= spec_artifacts(
            app_name@,
            mv,
        ));
    }
    let e = DownloadEntry {
        app_name: app_name.to_owned(),
        version: m.version.clone(),
        artifacts,
    };
    proof {
        assert(e.deep_view() =~= spec_entry_for(app_name@, mv)->Some_0);
    }
    Ok(e)
}

impl DownloadEntry {
    /// Resolves `app_name` across all buckets (first match wins) and derives
    /// its plan. Fails with `NoAppFound` exactly when no bucket publishes
    /// the name, and with `ManifestInvalid` when the manifest found is
    /// unusable.
    pub fn fetch(buckets: &Buckets, app_name: &str) -> (r: Result<DownloadEntry, ScoopieError>)
        ensures
            match spec_get_app(buckets.deep_view(), app_name@) {
                None => r matches Err(ScoopieError::NoAppFound(n)) && n@ == app_name@,
                Some(m) => match spec_entry_for(app_name@, m) {
                    Some(ev) => r matches Ok(e) && e.deep_view() == ev,
                    None => r matches Err(ScoopieError::ManifestInvalid),
                },
            },
    {
        match buckets.get_app(app_name) {
            None => Err(ScoopieError::NoAppFound(app_name.to_owned())),
            Some(m) => entry_for(app_name, m),
        }
    }

    /// Resolves `app_name` inside the named bucket only. Fails with
    /// `NoAppFoundInBucket` exactly when that bucket does not publish the
    /// name (or does not exist).
    pub fn fetch_from(buckets: &Buckets, app_name: &str, bucket_name: &str) -> (r: Result<
        DownloadEntry,
        ScoopieError,
    >)
        ensures
            match spec_get_app_from(buckets.deep_view(), app_name@, bucket_name@) {
                None => r matches Err(ScoopieError::NoAppFoundInBucket(n, b)) && n@ == app_name@
                    && b@ == bucket_name@,
                Some(m) => match spec_entry_for(app_name@, m) {
                    Some(ev) => r matches Ok(e) && e.deep_view() == ev,
                    None => r matches Err(ScoopieError::ManifestInvalid),
                },
            },
    {
        match buckets.get_app_from(app_name, bucket_name) {
            None => Err(
                ScoopieError::NoAppFoundInBucket(app_name.to_owned(), bucket_name.to_owned()),
            ),
            Some(m) => entry_for(app_name, m),
        }
    }
}

} // verus!
