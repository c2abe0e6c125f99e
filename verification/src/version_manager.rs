//! Version bumps and the head of a changelog.

use vstd::prelude::*;
use vstd::string::*;
use crate::error::ForgeKitError;

verus! {

/// Which part of a version a release raises.
#[derive(Debug, Clone, Copy, PartialEq, Eq, Structural)]
pub enum BumpType {
    Major,
    Minor,
    Patch,
}

impl BumpType {
    /// The first version of each kind of release.
    pub open spec fn first_version(self) -> Seq<char> {
        match self {
            BumpType::Major => "1.0.0"@,
            BumpType::Minor => "0.1.0"@,
            BumpType::Patch => "0.0.1"@,
        }
    }
}

/// Manages versions and releases.
#[derive(Debug, Clone)]
pub struct VersionManager;

impl VersionManager {
    /// The version after a bump of the given kind. `has_manifest` says
    /// whether the project directory holds a `Cargo.toml`.
    pub fn bump_version(has_manifest: bool, bump_type: BumpType) -> (r: Result<
        String,
        ForgeKitError,
    >)
        ensures
            has_manifest ==> r is Ok && r->Ok_0@ == bump_type.first_version(),
            !has_manifest ==> r is Err && r->Err_0 is ProjectNotFound && r->Err_0.detail()
                == "Cargo.toml not found"@,
    {
        if !has_manifest {
            return Err(ForgeKitError::ProjectNotFound(String::from_str("Cargo.toml not found")));
        }
        let new_version = match bump_type {
            BumpType::Major => String::from_str("1.0.0"),
            BumpType::Minor => String::from_str("0.1.0"),
            BumpType::Patch => String::from_str("0.0.1"),
        };
        Ok(new_version)
    }

    /// The head of a changelog. `has_manifest` says whether the project
    /// directory holds a `Cargo.toml`.
    pub fn generate_changelog(has_manifest: bool) -> (r: Result<String, ForgeKitError>)
        ensures
            has_manifest ==> r is Ok && r->Ok_0@ == "# Changelog\n\n## [Unreleased]\n"@,
            !has_manifest ==> r is Err && r->Err_0 is ProjectNotFound && r->Err_0.detail()
                == "Cargo.toml not found"@,
    {
        if !has_manifest {
            return Err(ForgeKitError::ProjectNotFound(String::from_str("Cargo.toml not found")));
        }
        Ok(String::from_str("# Changelog\n\n## [Unreleased]\n"))
    }
}

} // verus!
