//! Errors of the packaging pipeline. Every variant is terminal: the driver
//! aborts the run with a non-zero exit code when it sees one.

use vstd::prelude::*;
use crate::paths::SegPath;

verus! {

/// The broad families of failure.
#[derive(Debug, Copy, Clone, PartialEq, Eq, Structural)]
pub enum ErrorKind {
    Configuration,
    Resolution,
    Build,
    Io,
    Publish,
}

/// Everything that can stop a packaging run.
#[derive(Debug, Clone, PartialEq, Eq)]
pub enum Error {
    /// The package carries no tool-scoped configuration table.
    ConfigTableMissing,
    /// The configuration table is present but malformed; carries the
    /// schema-violation message of the reader.
    ConfigTableInvalid { message: String },
    /// The package manifest has no description field.
    MissingDescription,
    /// The package manifest has an empty description field.
    EmptyDescription,
    /// The package declares no binary and no embeddable-library target.
    NoPackageableTarget { package: String },
    /// More than one target could be packaged; lists every candidate's name
    /// and kind tags so the user can disambiguate.
    AmbiguousTarget { package: String, candidates: Vec<(String, Vec<String>)> },
    /// Neither an enclosing package nor a workspace root package was found.
    NoPackageSelected,
    /// The compiler subprocess failed; carries its exit code when there is
    /// one (a signal-terminated subprocess has none).
    CompilerFailed { exit_code: Option<i64> },
    /// The compiler succeeded but the predicted artifact path does not exist.
    ArtifactMissing { path: SegPath },
    /// A file referenced for bundling lies outside the package base directory.
    PathEscapesBaseDirectory { path: SegPath },
    /// The descriptor holds a string no descriptor file can carry.
    ManifestNotSerializable,
    /// The publisher subprocess failed; carries its exit code when there is
    /// one.
    PublisherFailed { exit_code: Option<i64> },
}

impl Error {
    /// The family this error belongs to.
    pub open spec fn spec_kind(self) -> ErrorKind {
        match self {
            Error::ConfigTableMissing => ErrorKind::Configuration,
            Error::ConfigTableInvalid { .. } => ErrorKind::Configuration,
            Error::MissingDescription => ErrorKind::Configuration,
            Error::EmptyDescription => ErrorKind::Configuration,
            Error::NoPackageableTarget { .. } => ErrorKind::Resolution,
            Error::AmbiguousTarget { .. } => ErrorKind::Resolution,
            Error::NoPackageSelected => ErrorKind::Resolution,
            Error::CompilerFailed { .. } => ErrorKind::Build,
            Error::ArtifactMissing { .. } => ErrorKind::Build,
            Error::PathEscapesBaseDirectory { .. } => ErrorKind::Io,
            Error::ManifestNotSerializable => ErrorKind::Io,
            Error::PublisherFailed { .. } => ErrorKind::Publish,
        }
    }

    /// The family this error belongs to.
    pub fn kind(&self) -> (k: ErrorKind)
        ensures
            k == self.spec_kind(),
    {
        match self {
            Error::ConfigTableMissing => ErrorKind::Configuration,
            Error::ConfigTableInvalid { .. } => ErrorKind::Configuration,
            Error::MissingDescription => ErrorKind::Configuration,
            Error::EmptyDescription => ErrorKind::Configuration,
            Error::NoPackageableTarget { .. } => ErrorKind::Resolution,
            Error::AmbiguousTarget { .. } => ErrorKind::Resolution,
            Error::NoPackageSelected => ErrorKind::Resolution,
            Error::CompilerFailed { .. } => ErrorKind::Build,
            Error::ArtifactMissing { .. } => ErrorKind::Build,
            Error::PathEscapesBaseDirectory { .. } => ErrorKind::Io,
            Error::ManifestNotSerializable => ErrorKind::Io,
            Error::PublisherFailed { .. } => ErrorKind::Publish,
        }
    }
}

} // verus!
