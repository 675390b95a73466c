//! Download orchestration decisions: which artifacts still need fetching,
//! and whether cached bytes match their declared hashes. The embedding
//! program performs the transfers and file reads and hands the results back;
//! every decision on them is made here.

use crate::error::ScoopieError;
use crate::plan::{spec_entry_for, DownloadEntry, ResolvedArtifact, ResolvedArtifactV};
use crate::registry::{spec_get_app, spec_get_app_from, Buckets};
use crate::text::{lower_of, lowercase, push_char, spec_split_slash, split_once_slash, trim, trim_of};
use sha2::Digest;
use vstd::prelude::*;

verus! {

/// The completion status of a download batch.
#[derive(Debug, PartialEq, Eq, Structural)]
pub enum DownloadStatus {
    Success,
}

/// The externally configured download tuning: cache directory, transfer
/// concurrency and retry budget.
#[derive(Debug)]
pub struct DownloadConfig {
    pub download_dir: String,
    pub max_retries: u32,
    pub concurrent_downloads: usize,
}

/// What the SHA-256 digest of a byte string is: 32 bytes, a function of the
/// input alone.
pub uninterp spec fn sha256_of(data: Seq<u8>) -> Seq<u8>;

/// Relies on sha2::Sha256::digest: the SHA-256 digest of the input bytes,
/// always 32 bytes long and a function of the input alone.
#[verifier::external_body]
fn sha256_digest(data: &Vec<u8>) -> (r: Vec<u8>)
    ensures
        r@ == sha256_of(data@),
        r@.len() == 32,
{
    sha2::Sha256::digest(data.as_slice()).to_vec()
}

/// The lowercase hexadecimal digit for a value below 16.
pub open spec fn hex_digit(n: u8) -> char {
    if n < 10 {
        ((n + 48) as char)
    } else {
        ((n + 87) as char)
    }
}

/// Lowercase hexadecimal text of a byte string, two digits per byte.
pub open spec fn hex_of(bytes: Seq<u8>) -> Seq<char> {
    Seq::new(
        bytes.len() * 2,
        |i: int|
            if i % 2 == 0 {
                hex_digit(bytes[i / 2] / 16)
            } else {
                hex_digit(bytes[i / 2] % 16)
            },
    )
}

/// Lowercase hexadecimal rendering of a byte string.
pub fn to_hex(bytes: &Vec<u8>) -> (r: String)
    ensures
        r@ == hex_of(bytes@),
{
    let mut out = String::new();
    let mut i: usize = 0;
    while i < bytes.len()
        invariant
            0 <= i <= bytes@.len(),
            out@ =~= hex_of(bytes@.take(i as int)),
        decreases bytes@.len() - i,
    {
        let b = bytes[i];
        let hi = b / 16;
        let lo = b % 16;
        let c_hi: u8 = if hi < 10 {
            hi + 48
        } else {
            hi + 87
        };
        let c_lo: u8 = if lo < 10 {
            lo + 48
        } else {
            lo + 87
        };
        push_char(&mut out, c_hi as char);
        push_char(&mut out, c_lo as char);
        proof {
            assert(hex_of(bytes@.take(i + 1)) =~= hex_of(bytes@.take(i as int)).push(
                hex_digit(bytes@[i as int] / 16),
            ).push(hex_digit(bytes@[i as int] % 16)));
        }
        i = i + 1;
    }
    proof {
        assert(bytes@.take(bytes@.len() as int) =~= bytes@);
    }
    out
}

/// One artifact's verification outcome: an artifact without a declared hash
/// always passes; otherwise the declared hash must be the lowercase
/// hexadecimal SHA-256 of the cached bytes.
pub open spec fn artifact_ok(expected: Option<Seq<char>>, content: Seq<u8>) -> bool {
    match expected {
        None => true,
        Some(h) => h == hex_of(sha256_of(content)),
    }
}

/// The aggregate outcome over the whole plan: the logical AND of every
/// artifact's own outcome.
pub open spec fn spec_all_verified(arts: Seq<ResolvedArtifactV>, contents: Seq<Seq<u8>>) -> bool {
    forall|i: int| 0 <= i < arts.len() ==> artifact_ok((#[trigger] arts[i]).hash, contents[i])
}

/// True exactly when the bytes match the declared hash; an absent hash
/// passes.
pub fn check_artifact(expected: &Option<String>, content: &Vec<u8>) -> (r: bool)
    ensures
        r == artifact_ok(expected.deep_view(), content@),
{
    match expected {
        None => true,
        Some(h) => {
            let digest = sha256_digest(content);
            let hex = to_hex(&digest);
            *h == hex
        },
    }
}

/// The artifacts of `arts` whose cache slot is empty, in plan order.
pub open spec fn spec_pending(arts: Seq<ResolvedArtifactV>, cached: Seq<bool>) -> Seq<
    ResolvedArtifactV,
>
    decreases arts.len(),
{
    if arts.len() == 0 {
        Seq::empty()
    } else {
        spec_pending(arts.drop_last(), cached.drop_last()) + (if cached[arts.len() - 1] {
            Seq::empty()
        } else {
            seq![arts.last()]
        })
    }
}

/// Running the downloader when every artifact is already cached fetches
/// nothing: a second run over an unchanged plan performs zero transfers.
pub proof fn lemma_all_cached_fetches_nothing(arts: Seq<ResolvedArtifactV>, cached: Seq<bool>)
    requires
        cached.len() == arts.len(),
        forall|i: int| 0 <= i < cached.len() ==> cached[i],
    ensures
        spec_pending(arts, cached).len() == 0,
    decreases arts.len(),
{
    if arts.len() > 0 {
        lemma_all_cached_fetches_nothing(arts.drop_last(), cached.drop_last());
    }
}

fn clone_artifact(a: &ResolvedArtifact) -> (r: ResolvedArtifact)
    ensures
        r.deep_view() == a.deep_view(),
{
    ResolvedArtifact {
        file_name: a.file_name.clone(),
        hash: match &a.hash {
            Some(h) => Some(h.clone()),
            None => None,
        },
        url: a.url.clone(),
    }
}

impl DownloadEntry {
    /// The filter-cached stage: keeps exactly the artifacts whose
    /// destination file does not exist yet. `cached[i]` reports whether
    /// artifact `i`'s file is present; the embedding program supplies it
    /// from an existence test, not a content comparison.
    pub fn pending(&self, cached: &Vec<bool>) -> (r: Vec<ResolvedArtifact>)
        requires
            cached@.len() == self.artifacts@.len(),
        ensures
            r.deep_view() == spec_pending(self.deep_view().artifacts, cached@),
    {
        let ghost av = self.deep_view().artifacts;
        let mut out: Vec<ResolvedArtifact> = Vec::new();
        let mut i: usize = 0;
        while i < self.artifacts.len()
            invariant
                0 <= i <= self.artifacts@.len(),
                cached@.len() == self.artifacts@.len(),
                av == self.deep_view().artifacts,
                av.len() == self.artifacts@.len(),
                out.deep_view() =~= spec_pending(av.take(i as int), cached@.take(i as int)),
            decreases self.artifacts@.len() - i,
        {
            proof {
                assert(av.take(i + 1).drop_last() =~= av.take(i as int));
                assert(cached@.take(i + 1).drop_last() =~= cached@.take(i as int));
                assert(av.take(i + 1).last() == av[i as int]);
            }
            if !cached[i] {
                let ghost prev = out.deep_view();
                out.push(clone_artifact(&self.artifacts[i]));
                proof {
                    assert(out.deep_view() =~= prev.push(av[i as int]));
                    assert(prev.push(av[i as int]) =~= prev + seq![av[i as int]]);
                }
            } else {
                proof {
                    assert(spec_pending(av.take(i + 1), cached@.take(i + 1)) =~= spec_pending(
                        av.take(i as int),
                        cached@.take(i as int),
                    ));
                }
            }
            i = i + 1;
        }
        proof {
            assert(av.take(av.len() as int) =~= av);
            assert(cached@.take(av.len() as int) =~= cached@);
        }
        out
    }

    /// The verification stage, over the whole original plan: recomputed
    /// hashes must match every declared hash; artifacts without one pass.
    /// `contents[i]` holds the cached bytes of artifact `i`.
    pub fn verify(&self, contents: &Vec<Vec<u8>>) -> (r: bool)
        requires
            contents@.len() == self.artifacts@.len(),
        ensures
            r == spec_all_verified(self.deep_view().artifacts, contents.deep_view()),
    {
        let ghost av = self.deep_view().artifacts;
        let ghost cv = contents.deep_view();
        let mut i: usize = 0;
        while i < self.artifacts.len()
            invariant
                0 <= i <= self.artifacts@.len(),
                contents@.len() == self.artifacts@.len(),
                av == self.deep_view().artifacts,
                cv == contents.deep_view(),
                av.len() == self.artifacts@.len(),
                cv.len() == self.artifacts@.len(),
                forall|j: int| 0 <= j < i ==> artifact_ok((#[trigger] av[j]).hash, cv[j]),
            decreases self.artifacts@.len() - i,
        {
            proof {
                assert(av[i as int] == self.artifacts@[i as int].deep_view());
                assert(cv[i as int] == contents@[i as int].deep_view());
                assert(contents@[i as int].deep_view() =~= contents@[i as int]@);
            }
            let ok = check_artifact(&self.artifacts[i].hash, &contents[i]);
            if !ok {
                proof {
                    assert(!artifact_ok(av[i as int].hash, cv[i as int]));
                }
                return false;
            }
            i = i + 1;
        }
        true
    }
}

/// One download invocation: the resolved plan plus the transfer tuning the
/// embedding program will drive it with.
#[derive(Debug)]
pub struct Downloader {
    pub item: DownloadEntry,
    pub max_retries: u32,
    pub concurrent: usize,
    pub download_dir: String,
}

/// Builds a downloader for an app reference, as the command line offers it.
pub trait Builder<T>: Sized {
    type Error;

    fn build_for(registry: &Buckets, config: &DownloadConfig, app_name: T) -> Result<
        Self,
        Self::Error,
    >;
}

impl Downloader {
    /// The resolve stage. A reference `bucket/app` is looked up in that
    /// bucket under the name as written; a bare name is trimmed, lowercased
    /// and looked up across all buckets, first match winning.
    pub fn resolve(registry: &Buckets, config: &DownloadConfig, app_name: &str) -> (r: Result<
        Downloader,
        ScoopieError,
    >)
        ensures
            match r {
                Ok(d) => d.max_retries == config.max_retries && d.concurrent
                    == config.concurrent_downloads && d.download_dir@ == config.download_dir@,
                Err(_) => true,
            },
            match spec_split_slash(app_name@) {
                Some(parts) => match spec_get_app_from(registry.deep_view(), parts.1, parts.0) {
                    None => r matches Err(ScoopieError::NoAppFoundInBucket(n, b)) && n@ == parts.1
                        && b@ == parts.0,
                    Some(m) => match spec_entry_for(parts.1, m) {
                        Some(ev) => r matches Ok(d) && d.item.deep_view() == ev,
                        None => r matches Err(ScoopieError::ManifestInvalid),
                    },
                },
                None => {
                    let q = lower_of(trim_of(app_name@));
                    match spec_get_app(registry.deep_view(), q) {
                        None => r matches Err(ScoopieError::NoAppFound(n)) && n@ == q,
                        Some(m) => match spec_entry_for(q, m) {
                            Some(ev) => r matches Ok(d) && d.item.deep_view() == ev,
                            None => r matches Err(ScoopieError::ManifestInvalid),
                        },
                    }
                },
            },
    {
        let item: DownloadEntry = match split_once_slash(app_name) {
            Some((bucket, app)) => {
                match DownloadEntry::fetch_from(registry, app.as_str(), bucket.as_str()) {
                    Ok(e) => e,
                    Err(e) => {
                        return Err(e);
                    },
                }
            },
            None => {
                let trimmed = trim(app_name);
                let query = lowercase(trimmed.as_str());
                match DownloadEntry::fetch(registry, query.as_str()) {
                    Ok(e) => e,
                    Err(e) => {
                        return Err(e);
                    },
                }
            },
        };
        Ok(
            Downloader {
                item,
                max_retries: config.max_retries,
                concurrent: config.concurrent_downloads,
                download_dir: config.download_dir.clone(),
            },
        )
    }

    /// The fetch-stage decision: the artifacts to hand to the transfer
    /// driver, and whether everything was already cached (in which case the
    /// batch reports "already cached" and performs no network I/O).
    pub fn to_fetch(&self, cached: &Vec<bool>) -> (r: (Vec<ResolvedArtifact>, bool))
        requires
            cached@.len() == self.item.artifacts@.len(),
        ensures
            r.0.deep_view() == spec_pending(self.item.deep_view().artifacts, cached@),
            r.1 == (spec_pending(self.item.deep_view().artifacts, cached@).len() == 0),
    {
        let pending = self.item.pending(cached);
        let already_cached = pending.len() == 0;
        (pending, already_cached)
    }
}

impl Builder<&str> for Downloader {
    type Error = ScoopieError;

    fn build_for(registry: &Buckets, config: &DownloadConfig, app_name: &str) -> Result<
        Downloader,
        ScoopieError,
    > {
        Downloader::resolve(registry, config, app_name)
    }
}

} // verus!
