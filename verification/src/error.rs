//! The failures that the library reports, and the broad kind of each.

use vstd::prelude::*;
use crate::text::join2;

verus! {

/// A failure, with the text that describes the case at hand.
#[derive(Debug)]
pub enum ForgeKitError {
    Io(String),
    Json(String),
    Toml(String),
    ProjectExists(String),
    ProjectNotFound(String),
    InvalidConfig(String),
    BuildFailed(String),
    PackagingFailed(String),
    TemplateError(String),
    Zip(String),
    TomlSerialization(String),
    /// A package, version or archive that was asked for is not known.
    NotFound(String),
    /// The request collides with what is already recorded.
    Conflict(String),
    /// A remote request or its response failed.
    Network(String),
}

/// The broad classes of failure; callers choose their recovery by these.
#[derive(Debug, Clone, Copy, PartialEq, Eq, Structural)]
pub enum ErrorKind {
    NotFound,
    Conflict,
    InvalidData,
    IoFailure,
    NetworkFailure,
    ArchiveFailure,
    /// Failures of the surrounding tool chain (compiling, templating).
    Tooling,
}

impl ForgeKitError {
    /// The class that each failure belongs to.
    pub open spec fn kind_of(self) -> ErrorKind {
        match self {
            ForgeKitError::Io(_) => ErrorKind::IoFailure,
            ForgeKitError::Json(_) => ErrorKind::InvalidData,
            ForgeKitError::Toml(_) => ErrorKind::InvalidData,
            ForgeKitError::ProjectExists(_) => ErrorKind::Conflict,
            ForgeKitError::ProjectNotFound(_) => ErrorKind::NotFound,
            ForgeKitError::InvalidConfig(_) => ErrorKind::InvalidData,
            ForgeKitError::BuildFailed(_) => ErrorKind::Tooling,
            ForgeKitError::PackagingFailed(_) => ErrorKind::ArchiveFailure,
            ForgeKitError::TemplateError(_) => ErrorKind::Tooling,
            ForgeKitError::Zip(_) => ErrorKind::ArchiveFailure,
            ForgeKitError::TomlSerialization(_) => ErrorKind::InvalidData,
            ForgeKitError::NotFound(_) => ErrorKind::NotFound,
            ForgeKitError::Conflict(_) => ErrorKind::Conflict,
            ForgeKitError::Network(_) => ErrorKind::NetworkFailure,
        }
    }

    /// The text carried by the failure.
    pub open spec fn detail(self) -> Seq<char> {
        match self {
            ForgeKitError::Io(m) => m@,
            ForgeKitError::Json(m) => m@,
            ForgeKitError::Toml(m) => m@,
            ForgeKitError::ProjectExists(m) => m@,
            ForgeKitError::ProjectNotFound(m) => m@,
            ForgeKitError::InvalidConfig(m) => m@,
            ForgeKitError::BuildFailed(m) => m@,
            ForgeKitError::PackagingFailed(m) => m@,
            ForgeKitError::TemplateError(m) => m@,
            ForgeKitError::Zip(m) => m@,
            ForgeKitError::TomlSerialization(m) => m@,
            ForgeKitError::NotFound(m) => m@,
            ForgeKitError::Conflict(m) => m@,
            ForgeKitError::Network(m) => m@,
        }
    }

    /// The words that introduce each failure when it is shown to a person.
    pub open spec fn heading(self) -> Seq<char> {
        match self {
            ForgeKitError::Io(_) => "IO error: "@,
            ForgeKitError::Json(_) => "JSON error: "@,
            ForgeKitError::Toml(_) => "TOML error: "@,
            ForgeKitError::ProjectExists(_) => "Project already exists at path: "@,
            ForgeKitError::ProjectNotFound(_) => "Project not found at path: "@,
            ForgeKitError::InvalidConfig(_) => "Invalid project configuration: "@,
            ForgeKitError::BuildFailed(_) => "Build failed: "@,
            ForgeKitError::PackagingFailed(_) => "Packaging failed: "@,
            ForgeKitError::TemplateError(_) => "Template error: "@,
            ForgeKitError::Zip(_) => "ZIP error: "@,
            ForgeKitError::TomlSerialization(_) => "TOML serialization error: "@,
            ForgeKitError::NotFound(_) => "Not found: "@,
            ForgeKitError::Conflict(_) => "Conflict: "@,
            ForgeKitError::Network(_) => "Network error: "@,
        }
    }

    /// The class of this failure.
    pub fn kind(&self) -> (k: ErrorKind)
        ensures
            k == self.kind_of(),
    {
        match self {
            ForgeKitError::Io(_) => ErrorKind::IoFailure,
            ForgeKitError::Json(_) => ErrorKind::InvalidData,
            ForgeKitError::Toml(_) => ErrorKind::InvalidData,
            ForgeKitError::ProjectExists(_) => ErrorKind::Conflict,
            ForgeKitError::ProjectNotFound(_) => ErrorKind::NotFound,
            ForgeKitError::InvalidConfig(_) => ErrorKind::InvalidData,
            ForgeKitError::BuildFailed(_) => ErrorKind::Tooling,
            ForgeKitError::PackagingFailed(_) => ErrorKind::ArchiveFailure,
            ForgeKitError::TemplateError(_) => ErrorKind::Tooling,
            ForgeKitError::Zip(_) => ErrorKind::ArchiveFailure,
            ForgeKitError::TomlSerialization(_) => ErrorKind::InvalidData,
            ForgeKitError::NotFound(_) => ErrorKind::NotFound,
            ForgeKitError::Conflict(_) => ErrorKind::Conflict,
            ForgeKitError::Network(_) => ErrorKind::NetworkFailure,
        }
    }

    /// The failure as one line of text: its heading, then its detail.
    pub fn message(&self) -> (m: String)
        ensures
            m@ == self.heading() + self.detail(),
    {
        match self {
            ForgeKitError::Io(d) => join2("IO error: ", d.as_str()),
            ForgeKitError::Json(d) => join2("JSON error: ", d.as_str()),
            ForgeKitError::Toml(d) => join2("TOML error: ", d.as_str()),
            ForgeKitError::ProjectExists(d) => join2("Project already exists at path: ", d.as_str()),
            ForgeKitError::ProjectNotFound(d) => join2("Project not found at path: ", d.as_str()),
            ForgeKitError::InvalidConfig(d) => join2("Invalid project configuration: ", d.as_str()),
            ForgeKitError::BuildFailed(d) => join2("Build failed: ", d.as_str()),
            ForgeKitError::PackagingFailed(d) => join2("Packaging failed: ", d.as_str()),
            ForgeKitError::TemplateError(d) => join2("Template error: ", d.as_str()),
            ForgeKitError::Zip(d) => join2("ZIP error: ", d.as_str()),
            ForgeKitError::TomlSerialization(d) => join2("TOML serialization error: ", d.as_str()),
            ForgeKitError::NotFound(d) => join2("Not found: ", d.as_str()),
            ForgeKitError::Conflict(d) => join2("Conflict: ", d.as_str()),
            ForgeKitError::Network(d) => join2("Network error: ", d.as_str()),
        }
    }
}

} // verus!
