//! Manifest-backed package resolution and download planning.
//!
//! The crate models app manifests published across named buckets, resolves an
//! app reference to the manifest that describes it, derives the concrete list
//! of artifacts to download, and decides which of them still need fetching
//! and whether the cached bytes match their declared hashes. All file and
//! network I/O is left to the embedding program; the logic here is pure and
//! carries contracts.

pub mod downloader;
pub mod error;
pub mod install;
pub mod manifest;
pub mod pathutil;
pub mod plan;
pub mod query;
pub mod registry;
pub mod text;
