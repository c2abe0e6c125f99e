//! The package manager: the order of the steps that add a dependency, the
//! layout of the vendor directory, and the manifest edits that go with
//! installing and removing packages.

use vstd::prelude::*;
use vstd::string::*;
use crate::config::{ProjectConfig, DependencyView, declares, first_declared_at, without_name, unique_names};
use crate::registry::{RegistryClient, RegistryConfig, PackageMetadata, PackageIndex, is_seed_snapshot};
use crate::text::{ends_with, has_suffix, join3, views_of};

verus! {

/// One entry of a directory listing: its name and what kind of entry it is.
#[derive(Debug, Clone)]
pub struct DirItem {
    pub name: String,
    pub is_dir: bool,
    pub is_file: bool,
}

/// How far the adding of a dependency has come.
#[derive(Debug, Clone, Copy, PartialEq, Eq, Structural)]
pub enum AddStage {
    /// Nothing has been done yet.
    Start,
    /// The archive is in the archive cache.
    Downloaded,
    /// The package is installed in the vendor directory.
    Installed,
    /// The manifest names the dependency.
    Recorded,
}

/// Where and how a downloaded archive is installed. All names are relative:
/// the install directory lies in the vendor directory, which lies in the
/// project root.
#[derive(Debug, Clone)]
pub struct InstallPlan {
    /// The vendor directory, to be created where it is missing.
    pub vendor_dir: String,
    /// The directory of the package inside the vendor directory.
    pub install_dir: String,
    /// The file inside the install directory that receives the raw archive.
    pub archive_copy: String,
    /// The source directory inside the install directory.
    pub source_dir: String,
    /// The entry-point file inside the source directory.
    pub entry_point: String,
    /// What is written to the entry-point file.
    pub entry_point_text: String,
}

/// What the caller has to do next while a dependency is added.
#[derive(Debug, Clone)]
pub enum AddAction {
    /// Fetch the archive of the release through the registry client.
    Download { name: String, version: String },
    /// Install the downloaded archive as the plan says.
    Install(InstallPlan),
    /// Write the manifest, which now names the dependency.
    SaveManifest,
    /// Nothing: the dependency is added.
    Finished,
}

/// The stage that follows `stage` once its action has succeeded.
pub open spec fn stage_after(stage: AddStage) -> AddStage {
    match stage {
        AddStage::Start => AddStage::Downloaded,
        AddStage::Downloaded => AddStage::Installed,
        AddStage::Installed => AddStage::Recorded,
        AddStage::Recorded => AddStage::Recorded,
    }
}

/// The name of the vendor directory inside the project root.
pub open spec fn vendor_dir_name() -> Seq<char> {
    "vendor"@
}

/// The directory of an installed release inside the vendor directory.
pub open spec fn install_dir_name(name: Seq<char>, version: Seq<char>) -> Seq<char> {
    name + "-"@ + version
}

/// The generated entry point of an installed package.
pub open spec fn entry_point_source() -> Seq<char> {
    "//! Auto-generated library file\npub fn hello() {\n    println!(\"Hello from {}!\", env!(\"CARGO_PKG_NAME\"));\n}\n"@
}

/// Whether `plan` installs the release `name` at `version`.
pub open spec fn plan_installs(plan: InstallPlan, name: Seq<char>, version: Seq<char>) -> bool {
    &&& plan.vendor_dir@ == vendor_dir_name()
    &&& plan.install_dir@ == install_dir_name(name, version)
    &&& plan.archive_copy@ == "package.tar.gz"@
    &&& plan.source_dir@ == "src"@
    &&& plan.entry_point@ == "lib.rs"@
    &&& plan.entry_point_text@ == entry_point_source()
}

/// The manifest after `name` was installed at `version`: the first
/// declaration of `name` carries the new version, or a declaration from the
/// registry was added at the end.
pub open spec fn recorded(before: Seq<DependencyView>, after: Seq<DependencyView>, name: Seq<char>, version: Seq<char>)
    -> bool {
    if declares(before, name) {
        exists|i: int|
            first_declared_at(before, name, i) && after == before.update(
                i,
                DependencyView { name: name, version: version, source: before[i].source },
            )
    } else {
        after == before.push(
            DependencyView { name: name, version: version, source: Some("registry"@) },
        )
    }
}

/// The display line of a search result.
pub open spec fn display_line(name: Seq<char>, description: Seq<char>) -> Seq<char> {
    name + " - "@ + description
}

/// The names of the directories of a listing, in the order of the listing.
pub open spec fn dir_names(items: Seq<DirItem>) -> Seq<Seq<char>>
    decreases items.len(),
{
    if items.len() == 0 {
        Seq::empty()
    } else if items.last().is_dir {
        dir_names(items.drop_last()).push(items.last().name@)
    } else {
        dir_names(items.drop_last())
    }
}

/// The names of the archive files of a listing, in the order of the listing.
pub open spec fn archive_names(items: Seq<DirItem>) -> Seq<Seq<char>>
    decreases items.len(),
{
    if items.len() == 0 {
        Seq::empty()
    } else if items.last().is_file && has_suffix(items.last().name@, ".tar.gz"@) {
        archive_names(items.drop_last()).push(items.last().name@)
    } else {
        archive_names(items.drop_last())
    }
}

/// The package manager of one project.
#[derive(Debug, Clone)]
pub struct PackageManager {
    registry_client: RegistryClient,
    project_root: String,
}

impl PackageManager {
    /// The root directory of the project.
    pub closed spec fn root(&self) -> Seq<char> {
        self.project_root@
    }

    /// The registry client that this manager fetches through.
    pub closed spec fn client(&self) -> RegistryClient {
        self.registry_client
    }

    /// A package manager for the project at `project_root`, fetching from
    /// the registry described by `registry_config`.
    pub fn new(project_root: String, registry_config: RegistryConfig) -> (r: Self)
        ensures
            r.root() == project_root@,
            r.client().config() == registry_config,
    {
        PackageManager { registry_client: RegistryClient::new(registry_config), project_root }
    }

    /// The registry client of this manager.
    pub fn registry_client(&self) -> (r: &RegistryClient)
        ensures
            *r == self.client(),
    {
        &self.registry_client
    }

    /// The root directory of the project.
    pub fn project_root(&self) -> (r: &str)
        ensures
            r@ == self.root(),
    {
        self.project_root.as_str()
    }

    /// How a downloaded archive of `name` at `version` is installed.
    pub fn install_package(&self, name: &str, version: &str) -> (r: InstallPlan)
        ensures
            plan_installs(r, name@, version@),
    {
        InstallPlan {
            vendor_dir: String::from_str("vendor"),
            install_dir: join3(name, "-", version),
            archive_copy: String::from_str("package.tar.gz"),
            source_dir: String::from_str("src"),
            entry_point: String::from_str("lib.rs"),
            entry_point_text: String::from_str(
                "//! Auto-generated library file\npub fn hello() {\n    println!(\"Hello from {}!\", env!(\"CARGO_PKG_NAME\"));\n}\n",
            ),
        }
    }

    /// Records in the manifest that `package_name` is installed at
    /// `version`.
    pub fn update_project_config(&self, config: &mut ProjectConfig, package_name: &str, version: &str)
        ensures
            final(config).same_head(old(config)),
            recorded(old(config).deps(), final(config).deps(), package_name@, version@),
            unique_names(old(config).deps()) ==> unique_names(final(config).deps()),
    {
        config.record_dependency(package_name, version);
    }

    /// Takes `package_name` out of the manifest; a name that is not declared
    /// leaves the manifest as it was.
    pub fn remove_from_config(&self, config: &mut ProjectConfig, package_name: &str)
        ensures
            final(config).same_head(old(config)),
            final(config).deps() == without_name(old(config).deps(), package_name@),
            unique_names(old(config).deps()) ==> unique_names(final(config).deps()),
    {
        config.forget_dependency(package_name);
    }

    /// One step of adding a dependency. The steps come in a fixed order:
    /// download, install, record in the manifest. Each call names the action
    /// of the stage it is given and the stage that follows once the caller
    /// has carried the action out. The manifest changes in one step only:
    /// after the install, before it is saved.
    pub fn add_dependency(
        &self,
        stage: AddStage,
        config: &mut ProjectConfig,
        package_name: &str,
        version: &str,
    ) -> (r: (AddStage, AddAction))
        ensures
            r.0 == stage_after(stage),
            final(config).same_head(old(config)),
            unique_names(old(config).deps()) ==> unique_names(final(config).deps()),
            stage != AddStage::Installed ==> *final(config) == *old(config),
            match stage {
                AddStage::Start => r.1 matches AddAction::Download { name, version: v }
                    && name@ == package_name@ && v@ == version@,
                AddStage::Downloaded => r.1 matches AddAction::Install(plan) && plan_installs(
                    plan,
                    package_name@,
                    version@,
                ),
                AddStage::Installed => r.1 is SaveManifest && recorded(
                    old(config).deps(),
                    final(config).deps(),
                    package_name@,
                    version@,
                ),
                AddStage::Recorded => r.1 is Finished,
            },
    {
        match stage {
            AddStage::Start => (
                AddStage::Downloaded,
                AddAction::Download {
                    name: String::from_str(package_name),
                    version: String::from_str(version),
                },
            ),
            AddStage::Downloaded => (
                AddStage::Installed,
                AddAction::Install(self.install_package(package_name, version)),
            ),
            AddStage::Installed => {
                self.update_project_config(config, package_name, version);
                (AddStage::Recorded, AddAction::SaveManifest)
            },
            AddStage::Recorded => (AddStage::Recorded, AddAction::Finished),
        }
    }

    /// Removes a dependency: the manifest loses every declaration of
    /// `package_name`, and the directory of that name inside the vendor
    /// directory, which is returned, is to be deleted where it exists. A
    /// name that is not declared is no failure.
    pub fn remove_dependency(&self, config: &mut ProjectConfig, package_name: &str) -> (r: String)
        ensures
            r@ == package_name@,
            final(config).same_head(old(config)),
            final(config).deps() == without_name(old(config).deps(), package_name@),
            unique_names(old(config).deps()) ==> unique_names(final(config).deps()),
    {
        self.remove_from_config(config, package_name);
        String::from_str(package_name)
    }

    /// The dependencies to install again when all are updated: every
    /// declaration of the manifest with the version recorded for it, in
    /// manifest order.
    pub fn update_dependencies(&self, config: &ProjectConfig) -> (r: Vec<(String, String)>)
        ensures
            r@.len() == config.deps().len(),
            forall|i: int|
                0 <= i < r@.len() ==> (#[trigger] r@[i]).0@ == config.deps()[i].name && r@[i].1@
                    == config.deps()[i].version,
    {
        let mut out: Vec<(String, String)> = Vec::new();
        let mut i: usize = 0;
        while i < config.dependencies.len()
            invariant
                i <= config.dependencies@.len(),
                out@.len() == i,
                forall|k: int|
                    0 <= k < i ==> (#[trigger] out@[k]).0@ == config.deps()[k].name && out@[k].1@
                        == config.deps()[k].version,
            decreases config.dependencies@.len() - i,
        {
            let dep = &config.dependencies[i];
            out.push((dep.name.clone(), dep.version.clone()));
            i += 1;
        }
        out
    }

    /// The display lines of search results, one per package in the order
    /// given: the name, a dash, the description.
    pub fn search_packages(&self, packages: &Vec<PackageMetadata>) -> (r: Vec<String>)
        ensures
            r@.len() == packages@.len(),
            forall|i: int|
                0 <= i < r@.len() ==> (#[trigger] r@[i])@ == display_line(
                    packages@[i].name@,
                    packages@[i].description@,
                ),
    {
        let mut out: Vec<String> = Vec::new();
        let mut i: usize = 0;
        while i < packages.len()
            invariant
                i <= packages@.len(),
                out@.len() == i,
                forall|k: int|
                    0 <= k < i ==> (#[trigger] out@[k])@ == display_line(
                        packages@[k].name@,
                        packages@[k].description@,
                    ),
            decreases packages@.len() - i,
        {
            out.push(join3(packages[i].name.as_str(), " - ", packages[i].description.as_str()));
            i += 1;
        }
        out
    }

    /// The installed packages: the names of the directories of the listing
    /// of the vendor directory.
    pub fn list_installed(&self, vendor_listing: &Vec<DirItem>) -> (r: Vec<String>)
        ensures
            views_of(r@) == dir_names(vendor_listing@),
    {
        let mut out: Vec<String> = Vec::new();
        let mut i: usize = 0;
        assert(vendor_listing@.subrange(0, 0) =~= Seq::<DirItem>::empty());
        assert(views_of(out@) =~= Seq::<Seq<char>>::empty());
        while i < vendor_listing.len()
            invariant
                i <= vendor_listing@.len(),
                views_of(out@) == dir_names(vendor_listing@.subrange(0, i as int)),
            decreases vendor_listing@.len() - i,
        {
            let ghost before = views_of(out@);
            proof {
                let next = vendor_listing@.subrange(0, i + 1);
                assert(next.drop_last() =~= vendor_listing@.subrange(0, i as int));
                assert(next.last() == vendor_listing@[i as int]);
            }
            if vendor_listing[i].is_dir {
                out.push(vendor_listing[i].name.clone());
                assert(views_of(out@) =~= before.push(vendor_listing@[i as int].name@));
            }
            i += 1;
        }
        assert(vendor_listing@.subrange(0, i as int) =~= vendor_listing@);
        out
    }

    /// Refreshes the local index through the registry client.
    pub fn update_registry(&self, index: &mut PackageIndex)
        ensures
            final(index).wf(),
            exists|now: Seq<char>| is_seed_snapshot(final(index).entries(), now),
    {
        self.registry_client.update_index(index);
    }

    /// The description of a release as lines of text.
    pub fn get_package_info(&self, info: &PackageMetadata) -> (r: String)
        ensures
            r@ == "Package: "@ + info.name@ + "\nVersion: "@ + info.version@ + "\nDescription: "@
                + info.description@ + "\nRepository: "@ + info.repository@ + "\nLicense: "@
                + info.license@,
    {
        let mut out = String::from_str("Package: ");
        out.append(info.name.as_str());
        out.append("\nVersion: ");
        out.append(info.version.as_str());
        out.append("\nDescription: ");
        out.append(info.description.as_str());
        out.append("\nRepository: ");
        out.append(info.repository.as_str());
        out.append("\nLicense: ");
        out.append(info.license.as_str());
        out
    }
}

/// The cached archives: the names of the files of the listing of the global
/// cache directory that end in `.tar.gz`.
pub fn list_cached_packages(cache_listing: &Vec<DirItem>) -> (r: Vec<String>)
    ensures
        views_of(r@) == archive_names(cache_listing@),
{
    let mut out: Vec<String> = Vec::new();
    let mut i: usize = 0;
    assert(cache_listing@.subrange(0, 0) =~= Seq::<DirItem>::empty());
    assert(views_of(out@) =~= Seq::<Seq<char>>::empty());
    while i < cache_listing.len()
        invariant
            i <= cache_listing@.len(),
            views_of(out@) == archive_names(cache_listing@.subrange(0, i as int)),
        decreases cache_listing@.len() - i,
    {
        let ghost before = views_of(out@);
        proof {
            let next = cache_listing@.subrange(0, i + 1);
            assert(next.drop_last() =~= cache_listing@.subrange(0, i as int));
            assert(next.last() == cache_listing@[i as int]);
        }
        if cache_listing[i].is_file && ends_with(cache_listing[i].name.as_str(), ".tar.gz") {
            out.push(cache_listing[i].name.clone());
            assert(views_of(out@) =~= before.push(cache_listing@[i as int].name@));
        }
        i += 1;
    }
    assert(cache_listing@.subrange(0, i as int) =~= cache_listing@);
    out
}

} // verus!
