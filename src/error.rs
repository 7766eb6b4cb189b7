//! The failures a run can end in, and the per-task failures it collects.

use vstd::prelude::*;

verus! {

/// Why one build task did not succeed. Task failures never stop sibling
/// tasks; they are collected into [`RunError::SomeTasksFailed`].
#[derive(Debug, PartialEq, Eq)]
pub enum TaskFailure {
    /// The build tool could not be started at all.
    SpawnFailure { package_id: String, cause: String },
    /// The build tool ran and ended with a status other than success;
    /// `code` is its exit code, absent when it was stopped by a signal.
    BuildFailure { package_id: String, code: Option<i32> },
}

/// Why a run failed as a whole.
#[derive(Debug, PartialEq, Eq)]
pub enum RunError {
    /// No version identifier was given.
    NoVersions,
    /// The memory per build task is below the floor of 512 MB.
    MemoryBelowFloor { per_task_mb: usize },
    /// A pool of zero workers was asked for, which could run no task.
    NoWorkers,
    /// The workers together would need more memory than the host has free.
    InsufficientMemory { workers: usize, per_task_mb: usize },
    /// The host operating system is not one runtimes are provisioned for.
    UnsupportedPlatform,
    /// A requested identifier is not in the version catalog.
    UnknownVersion(String),
    /// A requested identifier is not in the build tool's list of supported
    /// versions.
    UnsupportedVersion(String),
    /// The version catalog could not be fetched or read.
    CatalogFetchFailed(String),
    /// The package descriptor of a catalog entry could not be fetched.
    PackageFetchFailed { id: String, cause: String },
    /// The runtime distribution service offers no runtime of this major
    /// version.
    RuntimeUnavailable(u8),
    /// The runtime download answered with a status outside 200..=299.
    DownloadFailed { major: u8, status: u16 },
    /// No provisioned runtime has the major version a package needs.
    MissingRuntime(u8),
    /// An extracted runtime does not have the expected layout.
    MalformedArchive(u8),
    /// Provisioning failed for a reason outside the protocol (disk, network).
    ProvisioningFailed { major: u8, cause: String },
    /// At least one build task failed; every failure is listed.
    SomeTasksFailed(Vec<TaskFailure>),
}

} // verus!
