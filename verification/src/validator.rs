//! Validation of a project: what is reported for its manifest and its
//! directory layout.

use vstd::prelude::*;
use vstd::string::*;
use crate::error::ForgeKitError;
use crate::text::{join2, join3, ends_with, has_suffix, views_of};

verus! {

/// The outcome of validating a project.
#[derive(Debug, Clone)]
pub struct ValidationReport {
    /// Whether the project is valid
    pub is_valid: bool,
    /// List of validation errors
    pub errors: Vec<String>,
    /// List of validation warnings
    pub warnings: Vec<String>,
}

impl ValidationReport {
    /// The errors as plain values.
    pub open spec fn error_texts(&self) -> Seq<Seq<char>> {
        views_of(self.errors@)
    }

    /// The warnings as plain values.
    pub open spec fn warning_texts(&self) -> Seq<Seq<char>> {
        views_of(self.warnings@)
    }

    /// A report with nothing found yet: the project counts as valid.
    pub fn new() -> (r: Self)
        ensures
            r.is_valid,
            r.error_texts() == Seq::<Seq<char>>::empty(),
            r.warning_texts() == Seq::<Seq<char>>::empty(),
    {
        let r = ValidationReport { is_valid: true, errors: Vec::new(), warnings: Vec::new() };
        assert(r.error_texts() =~= Seq::<Seq<char>>::empty());
        assert(r.warning_texts() =~= Seq::<Seq<char>>::empty());
        r
    }

    /// Adds an error; the project is not valid any more.
    pub fn add_error(&mut self, error: String)
        ensures
            !final(self).is_valid,
            final(self).error_texts() == old(self).error_texts().push(error@),
            final(self).warning_texts() == old(self).warning_texts(),
    {
        let ghost before = self.error_texts();
        let ghost text = error@;
        self.is_valid = false;
        self.errors.push(error);
        assert(self.error_texts() =~= before.push(text));
    }

    /// Adds a warning; warnings leave the validity as it is.
    pub fn add_warning(&mut self, warning: String)
        ensures
            final(self).is_valid == old(self).is_valid,
            final(self).error_texts() == old(self).error_texts(),
            final(self).warning_texts() == old(self).warning_texts().push(warning@),
    {
        let ghost before = self.warning_texts();
        let ghost text = warning@;
        self.warnings.push(warning);
        assert(self.warning_texts() =~= before.push(text));
    }
}

impl Default for ValidationReport {
    fn default() -> (r: Self)
        ensures
            r.is_valid,
            r.error_texts() == Seq::<Seq<char>>::empty(),
            r.warning_texts() == Seq::<Seq<char>>::empty(),
    {
        ValidationReport::new()
    }
}

/// What stands at a path of the project.
#[derive(Debug, Clone, Copy, PartialEq, Eq, Structural)]
pub enum PathKind {
    /// Nothing is there.
    Missing,
    /// A directory is there.
    Directory,
    /// Something else is there, such as a file.
    Other,
}

/// The warning for a recommended directory that is missing.
pub open spec fn missing_dir_warning(dir: Seq<char>) -> Seq<char> {
    "Recommended directory '"@ + dir + "' not found"@
}

/// The error for a recommended directory whose place is taken by something else.
pub open spec fn not_a_dir_error(dir: Seq<char>) -> Seq<char> {
    "'"@ + dir + "' exists but is not a directory"@
}

/// The errors after one recommended directory was looked at.
pub open spec fn errors_after_dir(errors: Seq<Seq<char>>, dir: Seq<char>, kind: PathKind) -> Seq<
    Seq<char>,
> {
    if kind == PathKind::Other {
        errors.push(not_a_dir_error(dir))
    } else {
        errors
    }
}

/// The warnings after one recommended directory was looked at.
pub open spec fn warnings_after_dir(warnings: Seq<Seq<char>>, dir: Seq<char>, kind: PathKind)
    -> Seq<Seq<char>> {
    if kind == PathKind::Missing {
        warnings.push(missing_dir_warning(dir))
    } else {
        warnings
    }
}

/// What was found of the project's manifest.
#[derive(Debug, Clone)]
pub enum ManifestCheck {
    /// There is no manifest file.
    Missing,
    /// The manifest file could not be read as a manifest, for this reason.
    Unreadable(String),
    /// The manifest was read; these are its required fields.
    Loaded { name: String, version: String },
}

/// What was found of the project's `Cargo.toml`.
#[derive(Debug, Clone)]
pub enum CargoCheck {
    /// There is no such file.
    Missing,
    /// The file is not valid TOML, for this reason.
    Invalid(String),
    /// The file is valid TOML.
    Valid,
}

/// What the toml crate objects to in a text read as a TOML document;
/// nothing where the text is a valid document.
pub uninterp spec fn toml_problem(content: Seq<char>) -> Option<Seq<char>>;

/// `toml::from_str` of the toml crate, reading the text as a TOML value of
/// any shape: the message of its error, or nothing where the text is
/// valid; which of the two, and the message, depend on the text alone.
#[verifier::external_body]
fn toml_error_of(content: &str) -> (r: Option<String>)
    ensures
        match r {
            Some(message) => toml_problem(content@) == Some(message@),
            None => toml_problem(content@) is None,
        },
{
    match toml::from_str::<toml::Value>(content) {
        Ok(_) => None,
        Err(e) => Some(e.to_string()),
    }
}

/// What is found of a `Cargo.toml` with the given content; `None` stands
/// for a file that is not there.
pub open spec fn cargo_finding(content: Option<Seq<char>>, check: CargoCheck) -> bool {
    match content {
        None => check is Missing,
        Some(text) => match toml_problem(text) {
            None => check is Valid,
            Some(message) => check matches CargoCheck::Invalid(reason) && reason@ == message,
        },
    }
}

/// The errors that the manifest adds to a report.
pub open spec fn manifest_errors(manifest: ManifestCheck) -> Seq<Seq<char>> {
    match manifest {
        ManifestCheck::Missing => seq!["forgekit.toml not found"@],
        ManifestCheck::Unreadable(reason) => seq!["Invalid forgekit.toml: "@ + reason@],
        ManifestCheck::Loaded { name, version } => (if name@.len() == 0 {
            seq!["Project name is required in forgekit.toml"@]
        } else {
            Seq::<Seq<char>>::empty()
        }) + (if version@.len() == 0 {
            seq!["Project version is required in forgekit.toml"@]
        } else {
            Seq::<Seq<char>>::empty()
        }),
    }
}

/// The errors that the `Cargo.toml` adds to a report.
pub open spec fn cargo_errors(cargo: CargoCheck) -> Seq<Seq<char>> {
    match cargo {
        CargoCheck::Invalid(reason) => seq!["Invalid Cargo.toml: "@ + reason@],
        _ => Seq::<Seq<char>>::empty(),
    }
}

/// The warnings that the `Cargo.toml` adds to a report.
pub open spec fn cargo_warnings(cargo: CargoCheck) -> Seq<Seq<char>> {
    match cargo {
        CargoCheck::Missing => seq!["Cargo.toml not found - dependencies cannot be validated"@],
        _ => Seq::<Seq<char>>::empty(),
    }
}

/// Whether a file name has the extension `rs`: it ends in `.rs` and has
/// something before that.
pub open spec fn is_rust_source(name: Seq<char>) -> bool {
    has_suffix(name, ".rs"@) && name.len() > ".rs"@.len()
}

/// The number of names that are Rust source files.
pub open spec fn source_count(names: Seq<String>) -> nat
    decreases names.len(),
{
    if names.len() == 0 {
        0
    } else {
        source_count(names.drop_last()) + (if is_rust_source(names.last()@) {
            1nat
        } else {
            0nat
        })
    }
}

/// Validates projects.
#[derive(Debug, Clone)]
pub struct ProjectValidator;

impl ProjectValidator {
    /// Reports on one recommended directory.
    fn check_dir(dir: &str, kind: PathKind, report: &mut ValidationReport)
        ensures
            final(report).is_valid == (old(report).is_valid && kind != PathKind::Other),
            final(report).error_texts() == errors_after_dir(old(report).error_texts(), dir@, kind),
            final(report).warning_texts() == warnings_after_dir(
                old(report).warning_texts(),
                dir@,
                kind,
            ),
    {
        match kind {
            PathKind::Missing => {
                report.add_warning(join3("Recommended directory '", dir, "' not found"));
            },
            PathKind::Directory => {},
            PathKind::Other => {
                report.add_error(join3("'", dir, "' exists but is not a directory"));
            },
        }
    }

    /// Reports on the directory layout of a project, given what stands at
    /// `src` and at `assets`: a missing directory is a warning, anything but
    /// a directory in its place is an error. `src` is looked at first.
    pub fn validate_structure(src: PathKind, assets: PathKind, report: &mut ValidationReport) -> (r:
        Result<(), ForgeKitError>)
        ensures
            r is Ok,
            final(report).is_valid == (old(report).is_valid && src != PathKind::Other && assets
                != PathKind::Other),
            final(report).error_texts() == errors_after_dir(
                errors_after_dir(old(report).error_texts(), "src"@, src),
                "assets"@,
                assets,
            ),
            final(report).warning_texts() == warnings_after_dir(
                warnings_after_dir(old(report).warning_texts(), "src"@, src),
                "assets"@,
                assets,
            ),
    {
        Self::check_dir("src", src, report);
        Self::check_dir("assets", assets, report);
        Ok(())
    }

    /// Checks the required fields of a manifest: a project needs a name,
    /// and then a version.
    pub fn validate_config_only(name: &str, version: &str) -> (r: Result<(), ForgeKitError>)
        ensures
            name@.len() == 0 ==> r is Err && r->Err_0 is InvalidConfig && r->Err_0.detail()
                == "Project name is required"@,
            name@.len() > 0 && version@.len() == 0 ==> r is Err && r->Err_0 is InvalidConfig
                && r->Err_0.detail() == "Project version is required"@,
            name@.len() > 0 && version@.len() > 0 ==> r is Ok,
    {
        if name.unicode_len() == 0 {
            return Err(ForgeKitError::InvalidConfig(String::from_str("Project name is required")));
        }
        if version.unicode_len() == 0 {
            return Err(
                ForgeKitError::InvalidConfig(String::from_str("Project version is required")),
            );
        }
        Ok(())
    }
}

impl ProjectValidator {
    /// Reports on the manifest: a missing or unreadable manifest is an
    /// error, and so is each required field that is empty, the name first.
    pub fn validate_config(manifest: &ManifestCheck, report: &mut ValidationReport) -> (r: Result<
        (),
        ForgeKitError,
    >)
        ensures
            r is Ok,
            final(report).is_valid == (old(report).is_valid && manifest_errors(*manifest).len()
                == 0),
            final(report).error_texts() == old(report).error_texts() + manifest_errors(*manifest),
            final(report).warning_texts() == old(report).warning_texts(),
    {
        let ghost before = report.error_texts();
        match manifest {
            ManifestCheck::Missing => {
                report.add_error(String::from_str("forgekit.toml not found"));
                assert(report.error_texts() =~= before + manifest_errors(*manifest));
            },
            ManifestCheck::Unreadable(reason) => {
                report.add_error(join2("Invalid forgekit.toml: ", reason.as_str()));
                assert(report.error_texts() =~= before + manifest_errors(*manifest));
            },
            ManifestCheck::Loaded { name, version } => {
                if name.as_str().unicode_len() == 0 {
                    report.add_error(String::from_str("Project name is required in forgekit.toml"));
                }
                if version.as_str().unicode_len() == 0 {
                    report.add_error(
                        String::from_str("Project version is required in forgekit.toml"),
                    );
                }
                assert(report.error_texts() =~= before + manifest_errors(*manifest));
            },
        }
        Ok(())
    }

    /// Looks at the content of the project's `Cargo.toml`, where there is
    /// one: it has to be a valid TOML document.
    pub fn check_cargo_toml(content: Option<&str>) -> (r: CargoCheck)
        ensures
            cargo_finding(
                match content {
                    Some(text) => Some(text@),
                    None => None,
                },
                r,
            ),
    {
        match content {
            None => CargoCheck::Missing,
            Some(text) => match toml_error_of(text) {
                None => CargoCheck::Valid,
                Some(message) => CargoCheck::Invalid(message),
            },
        }
    }

    /// Reports on the `Cargo.toml`: a missing file is a warning, a file
    /// that is not valid TOML an error.
    pub fn validate_dependencies(cargo: &CargoCheck, report: &mut ValidationReport) -> (r: Result<
        (),
        ForgeKitError,
    >)
        ensures
            r is Ok,
            final(report).is_valid == (old(report).is_valid && cargo_errors(*cargo).len() == 0),
            final(report).error_texts() == old(report).error_texts() + cargo_errors(*cargo),
            final(report).warning_texts() == old(report).warning_texts() + cargo_warnings(*cargo),
    {
        let ghost errors = report.error_texts();
        let ghost warnings = report.warning_texts();
        match cargo {
            CargoCheck::Missing => {
                report.add_warning(
                    String::from_str("Cargo.toml not found - dependencies cannot be validated"),
                );
            },
            CargoCheck::Invalid(reason) => {
                report.add_error(join2("Invalid Cargo.toml: ", reason.as_str()));
            },
            CargoCheck::Valid => {},
        }
        assert(report.error_texts() =~= errors + cargo_errors(*cargo));
        assert(report.warning_texts() =~= warnings + cargo_warnings(*cargo));
        Ok(())
    }

    /// Validates a project from what was found of it: first the manifest,
    /// then the directory layout, then the `Cargo.toml`.
    pub fn validate_project(
        manifest: &ManifestCheck,
        src: PathKind,
        assets: PathKind,
        cargo: &CargoCheck,
    ) -> (r: Result<ValidationReport, ForgeKitError>)
        ensures
            r is Ok,
            r->Ok_0.is_valid == (manifest_errors(*manifest).len() == 0 && src != PathKind::Other
                && assets != PathKind::Other && cargo_errors(*cargo).len() == 0),
            r->Ok_0.error_texts() == errors_after_dir(
                errors_after_dir(manifest_errors(*manifest), "src"@, src),
                "assets"@,
                assets,
            ) + cargo_errors(*cargo),
            r->Ok_0.warning_texts() == warnings_after_dir(
                warnings_after_dir(Seq::empty(), "src"@, src),
                "assets"@,
                assets,
            ) + cargo_warnings(*cargo),
    {
        let mut report = ValidationReport::new();
        let _ = Self::validate_config(manifest, &mut report);
        assert(report.error_texts() =~= manifest_errors(*manifest));
        let _ = Self::validate_structure(src, assets, &mut report);
        let _ = Self::validate_dependencies(cargo, &mut report);
        Ok(report)
    }

    /// The number of Rust source files among the entries found under the
    /// source directory, given the file name of each entry.
    pub fn count_source_files(entry_names: &Vec<String>) -> (r: Result<usize, ForgeKitError>)
        ensures
            r is Ok,
            r->Ok_0 == source_count(entry_names@),
    {
        let mut count: usize = 0;
        let mut i: usize = 0;
        assert(entry_names@.subrange(0, 0) =~= Seq::<String>::empty());
        while i < entry_names.len()
            invariant
                i <= entry_names@.len(),
                count <= i,
                count == source_count(entry_names@.subrange(0, i as int)),
            decreases entry_names@.len() - i,
        {
            proof {
                let next = entry_names@.subrange(0, i + 1);
                assert(next.drop_last() =~= entry_names@.subrange(0, i as int));
                assert(next.last() == entry_names@[i as int]);
            }
            let name = entry_names[i].as_str();
            let suffix_len: usize = ".rs".unicode_len();
            if ends_with(name, ".rs") && name.unicode_len() > suffix_len {
                count += 1;
            }
            i += 1;
        }
        assert(entry_names@.subrange(0, i as int) =~= entry_names@);
        Ok(count)
    }
}

} // verus!
