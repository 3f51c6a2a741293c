//! Update-orchestration engine for a self-updating agent: version
//! comparison, chunked resumable downloads with retry/backoff, checksum
//! verification, and reconciliation of a local artifact manifest against a
//! remote one.

pub mod compression;
pub mod download;
pub mod hash;
pub mod manifest;
pub mod reconcile;
pub mod update;
pub mod version;

use vstd::prelude::*;

verus! {

/// Errors that end one artifact's update for the current cycle.
#[derive(Debug)]
pub enum UpdateError {
    /// A version string was not a valid semantic version.
    VersionParse,
    /// The remote store did not report the artifact's content length.
    LengthUnavailable,
    /// The downloaded archive's digest differs from the manifest's digest.
    ChecksumMismatch { expected: String, actual: String },
    /// The verified archive could not be decompressed.
    Decompress,
    /// The decompressed payload could not be written to its destination.
    Install,
    /// The service supervisor failed to stop the service before install.
    ServiceControl,
}

} // verus!
