//! Audit of dependencies for known vulnerabilities.

use vstd::prelude::*;
use vstd::string::*;
use crate::error::ForgeKitError;

verus! {

/// Vulnerability severity
#[derive(Debug, Clone, Copy, PartialEq, Eq, Structural)]
pub enum Severity {
    Low,
    Medium,
    High,
    Critical,
}

/// Vulnerability information
#[derive(Debug, Clone)]
pub struct Vulnerability {
    pub package: String,
    pub version: String,
    pub severity: Severity,
    pub description: String,
}

/// The number of vulnerabilities of each severity.
#[derive(Debug, Clone, Copy, PartialEq, Eq, Structural)]
pub struct SeveritySummary {
    pub critical: usize,
    pub high: usize,
    pub medium: usize,
    pub low: usize,
}

/// Audit report
#[derive(Debug, Clone)]
pub struct AuditReport {
    pub vulnerabilities: Vec<Vulnerability>,
    pub severity_summary: SeveritySummary,
}

/// Update suggestion
#[derive(Debug, Clone)]
pub struct UpdateSuggestion {
    pub package: String,
    pub current_version: String,
    pub suggested_version: String,
}

/// Audits the dependencies of a project.
#[derive(Debug, Clone)]
pub struct DependencyAuditor;

impl DependencyAuditor {
    /// The audit of a project. `has_manifest` says whether the project
    /// directory holds a `Cargo.toml`. No source of advisories is
    /// connected, so the report of a project lists nothing.
    pub fn audit_dependencies(has_manifest: bool) -> (r: Result<AuditReport, ForgeKitError>)
        ensures
            has_manifest ==> r is Ok && r->Ok_0.vulnerabilities@.len() == 0
                && r->Ok_0.severity_summary == (SeveritySummary {
                critical: 0,
                high: 0,
                medium: 0,
                low: 0,
            }),
            !has_manifest ==> r is Err && r->Err_0 is ProjectNotFound && r->Err_0.detail()
                == "Cargo.toml not found"@,
    {
        if !has_manifest {
            return Err(ForgeKitError::ProjectNotFound(String::from_str("Cargo.toml not found")));
        }
        Ok(
            AuditReport {
                vulnerabilities: Vec::new(),
                severity_summary: SeveritySummary { critical: 0, high: 0, medium: 0, low: 0 },
            },
        )
    }

    /// The updates suggested for a project; none, as no source of releases
    /// is connected.
    pub fn check_for_updates(has_manifest: bool) -> (r: Result<Vec<UpdateSuggestion>, ForgeKitError>)
        ensures
            has_manifest ==> r is Ok && r->Ok_0@.len() == 0,
            !has_manifest ==> r is Err && r->Err_0 is ProjectNotFound && r->Err_0.detail()
                == "Cargo.toml not found"@,
    {
        if !has_manifest {
            return Err(ForgeKitError::ProjectNotFound(String::from_str("Cargo.toml not found")));
        }
        Ok(Vec::new())
    }
}

} // verus!
