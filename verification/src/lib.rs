//! Tracks a user-curated list of software projects hosted as GitHub
//! repositories, decides whether a locally installed version is behind the
//! latest published release, and picks the release asset to download.
//!
//! The crate holds the logic of that pipeline: version-token extraction and
//! comparison, asset selection, registry bookkeeping, the registry file
//! format, and the per-app decision steps of the concurrent check/download
//! run. Process execution, HTTP and the file system stay with the caller,
//! which hands their results in as plain values.

pub mod app;
pub mod cli;
pub mod client;
pub mod compare_release_version;
pub mod error;
pub mod github_release;
pub mod github_version;
pub mod models;

pub mod storage;
pub mod text;
