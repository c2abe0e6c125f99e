//! Packaging of a built project: what goes into the package and where.

use vstd::prelude::*;
use vstd::string::*;
use crate::error::ForgeKitError;
use crate::text::join2;

verus! {

/// What a package of a project is made of. Paths on disk are relative to
/// the project directory; entry names are names inside the package.
#[derive(Debug, Clone)]
pub struct PackagePlan {
    /// The directory that receives the package.
    pub output_dir: String,
    /// The file name of the package inside the output directory.
    pub package_file: String,
    /// The entry that holds the built binary.
    pub binary_entry: String,
    /// The entry that holds the manifest.
    pub manifest_entry: String,
}

/// Whether `plan` packages the project called `name` into `output_dir`.
pub open spec fn plan_packages(plan: PackagePlan, name: Seq<char>, output_dir: Seq<char>) -> bool {
    &&& plan.output_dir@ == output_dir
    &&& plan.package_file@ == name + ".mox"@
    &&& plan.binary_entry@ == "app.bin"@
    &&& plan.manifest_entry@ == "forgekit.toml"@
}

/// Plans the package of a project. `project_path` is the project
/// directory as shown in messages; `project_exists` and `binary_exists`
/// say whether that directory and the built binary were found. A project
/// that is not there cannot be packaged, nor one that was not built.
pub fn package(
    project_path: &str,
    project_exists: bool,
    binary_exists: bool,
    name: &str,
    output_dir: &str,
) -> (r: Result<PackagePlan, ForgeKitError>)
    ensures
        !project_exists ==> r is Err && r->Err_0 is ProjectNotFound && r->Err_0.detail()
            == project_path@,
        project_exists && !binary_exists ==> r is Err && r->Err_0 is PackagingFailed
            && r->Err_0.detail() == "Binary not found. Please build the project first."@,
        project_exists && binary_exists ==> r is Ok && plan_packages(r->Ok_0, name@, output_dir@),
{
    if !project_exists {
        return Err(ForgeKitError::ProjectNotFound(String::from_str(project_path)));
    }
    if !binary_exists {
        return Err(
            ForgeKitError::PackagingFailed(
                String::from_str("Binary not found. Please build the project first."),
            ),
        );
    }
    Ok(
        PackagePlan {
            output_dir: String::from_str(output_dir),
            package_file: join2(name, ".mox"),
            binary_entry: String::from_str("app.bin"),
            manifest_entry: String::from_str("forgekit.toml"),
        },
    )
}

/// The name inside the package of an asset file, given its path relative
/// to the directory it was found in.
pub fn asset_entry_name(relative_path: &str) -> (r: String)
    ensures
        r@ == "assets/"@ + relative_path@,
{
    join2("assets/", relative_path)
}

} // verus!
