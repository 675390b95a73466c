//! Error taxonomy for resolution, planning and downloading.

use vstd::prelude::*;

verus! {

/// Everything that can go wrong between naming an app and holding its
/// verified artifacts in the cache.
#[derive(Debug, PartialEq, Eq)]
pub enum ScoopieError {
    /// A manifest document is structurally invalid: a required field is
    /// missing or mistyped, or its URL and hash lists disagree.
    ManifestInvalid,
    /// The app name resolves to nothing in any bucket.
    NoAppFound(String),
    /// The app name resolves to nothing within the named bucket.
    NoAppFoundInBucket(String, String),
    /// The cache directory cannot be read or created.
    CacheDirUnavailable,
    /// A network fetch exhausted its retry budget for at least one artifact.
    TransferFailed,
    /// A path that was expected to exist does not.
    FileNotExist(String),
    /// The filesystem refused an operation.
    PermissionDenied,
    /// A directory could not be created.
    FailedToMkdir(String),
    /// A path could not be resolved to an absolute form.
    AbsolutePathResolve,
    /// Any other failure.
    Unknown,
}

} // verus!
