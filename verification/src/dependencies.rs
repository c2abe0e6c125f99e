//! The catalogue of known packages, exact-version resolution, and the
//! manifest edits of the dependency manager.

use vstd::prelude::*;
use vstd::string::*;
use crate::config::{Dependency, ProjectConfig, DependencyView, declares, without_name, unique_names};
use crate::error::ForgeKitError;
use crate::text::{same_text, contains, has_substring, join2};

verus! {

/// One release of a package.
#[derive(Debug, Clone)]
pub struct PackageVersion {
    /// Version string
    pub version: String,
    /// Release date
    pub released: String,
    /// Targets the release works on
    pub compatible_targets: Vec<String>,
    /// Download URL
    pub download_url: String,
}

/// What the catalogue knows of one package.
#[derive(Debug, Clone)]
pub struct PackageInfo {
    /// Package name
    pub name: String,
    /// Available versions
    pub versions: Vec<PackageVersion>,
    /// Package description
    pub description: String,
    /// Package keywords
    pub keywords: Vec<String>,
    /// Package repository
    pub repository: Option<String>,
}

/// A dependency with the release chosen for it.
#[derive(Debug, Clone)]
pub struct ResolvedDependency {
    pub name: String,
    pub version: String,
    pub download_url: String,
}

/// The catalogue of known packages, at most one per name.
#[derive(Debug, Clone)]
pub struct DependencyRegistry {
    packages: Vec<PackageInfo>,
}

/// Whether one of the keywords holds `query`.
pub open spec fn keyword_hit(keywords: Seq<String>, query: Seq<char>) -> bool {
    exists|i: int| 0 <= i < keywords.len() && has_substring(keywords[i]@, query)
}

/// Whether a search for `query` finds the package: the query occurs in its
/// name, in its description or in one of its keywords.
pub open spec fn answers_query(pkg: PackageInfo, query: Seq<char>) -> bool {
    has_substring(pkg.name@, query) || has_substring(pkg.description@, query) || keyword_hit(
        pkg.keywords@,
        query,
    )
}

/// Whether the package has a release whose version is exactly `req`.
pub open spec fn has_version(pkg: PackageInfo, req: Seq<char>) -> bool {
    exists|i: int| 0 <= i < pkg.versions@.len() && pkg.versions@[i].version@ == req
}

/// Whether `i` is the first release of the package whose version is exactly `req`.
pub open spec fn first_version_at(pkg: PackageInfo, req: Seq<char>, i: int) -> bool {
    &&& 0 <= i < pkg.versions@.len()
    &&& pkg.versions@[i].version@ == req
    &&& forall|k: int| 0 <= k < i ==> pkg.versions@[k].version@ != req
}

/// Whether the catalogue knows a package called `name`.
pub open spec fn knows(packages: Seq<PackageInfo>, name: Seq<char>) -> bool {
    exists|i: int| 0 <= i < packages.len() && packages[i].name@ == name
}

/// A position of the package called `name`.
pub open spec fn package_slot(packages: Seq<PackageInfo>, name: Seq<char>) -> int {
    choose|i: int| 0 <= i < packages.len() && packages[i].name@ == name
}

/// No two packages of the catalogue share a name.
pub open spec fn distinct_names(packages: Seq<PackageInfo>) -> bool {
    forall|i: int, j: int| 0 <= i < j < packages.len() ==> packages[i].name@ != packages[j].name@
}

/// Whether the dependency can be resolved: its package is known and has
/// exactly the version asked for.
pub open spec fn resolvable(packages: Seq<PackageInfo>, dep: DependencyView) -> bool {
    knows(packages, dep.name) && has_version(packages[package_slot(packages, dep.name)], dep.version)
}

/// Whether `r` is the resolution of `dep`: the name and version asked for,
/// with the download URL of the first release of that version.
pub open spec fn resolves_to(
    packages: Seq<PackageInfo>,
    dep: DependencyView,
    r: ResolvedDependency,
) -> bool {
    let pkg = packages[package_slot(packages, dep.name)];
    &&& r.name@ == dep.name
    &&& r.version@ == dep.version
    &&& exists|i: int| first_version_at(pkg, dep.version, i) && r.download_url@
        == pkg.versions@[i].download_url@
}

/// The text of the failure to find exactly `version` among the releases
/// of the package `name`.
pub open spec fn version_failure(name: Seq<char>, version: Seq<char>) -> Seq<char> {
    "Version "@ + version + " not found for package "@ + name
}

/// The text of the failure to resolve a dependency that cannot be
/// resolved: its package is not known, or has no release of its version.
pub open spec fn resolution_failure(packages: Seq<PackageInfo>, dep: DependencyView) -> Seq<char> {
    if knows(packages, dep.name) {
        version_failure(dep.name, dep.version)
    } else {
        "Package not found: "@ + dep.name
    }
}

/// Whether one of the strings holds `query`.
fn any_contains(words: &Vec<String>, query: &str) -> (r: bool)
    ensures
        r == keyword_hit(words@, query@),
{
    let mut i: usize = 0;
    while i < words.len()
        invariant
            i <= words@.len(),
            forall|k: int| 0 <= k < i ==> !has_substring(words@[k]@, query@),
        decreases words@.len() - i,
    {
        if contains(words[i].as_str(), query) {
            return true;
        }
        i += 1;
    }
    false
}

impl DependencyRegistry {
    /// The known packages, in the order in which their names first came.
    pub closed spec fn packages(&self) -> Seq<PackageInfo> {
        self.packages@
    }

    /// What every catalogue upholds: one package per name.
    pub open spec fn wf(&self) -> bool {
        distinct_names(self.packages())
    }

    /// An empty catalogue.
    pub fn new() -> (r: Self)
        ensures
            r.wf(),
            r.packages().len() == 0,
    {
        DependencyRegistry { packages: Vec::new() }
    }

    /// The position of the package called `name`, if it is known.
    fn slot(&self, name: &str) -> (r: Option<usize>)
        requires
            self.wf(),
        ensures
            r is Some <==> knows(self.packages(), name@),
            r is Some ==> r->Some_0 < self.packages().len() && r->Some_0 == package_slot(
                self.packages(),
                name@,
            ),
    {
        let mut i: usize = 0;
        while i < self.packages.len()
            invariant
                i <= self.packages@.len(),
                self.wf(),
                forall|k: int| 0 <= k < i ==> self.packages@[k].name@ != name@,
            decreases self.packages@.len() - i,
        {
            if same_text(self.packages[i].name.as_str(), name) {
                proof {
                    let j = package_slot(self.packages(), name@);
                    assert(self.packages()[i as int].name@ == name@);
                    assert(0 <= j < self.packages().len() && self.packages()[j].name@ == name@);
                    assert(j == i);
                }
                return Some(i);
            }
            i += 1;
        }
        None
    }

    /// Enters `info` into the catalogue, in place of a package of the same
    /// name where there is one, and at the end otherwise.
    pub fn add_package(&mut self, info: PackageInfo)
        requires
            old(self).wf(),
        ensures
            final(self).wf(),
            knows(old(self).packages(), info.name@) ==> final(self).packages() == old(
                self,
            ).packages().update(package_slot(old(self).packages(), info.name@), info),
            !knows(old(self).packages(), info.name@) ==> final(self).packages() == old(
                self,
            ).packages().push(info),
    {
        match self.slot(info.name.as_str()) {
            Some(i) => {
                self.packages[i] = info;
            },
            None => {
                self.packages.push(info);
            },
        }
    }

    /// The package called `name`, if it is known.
    pub fn find_package(&self, name: &str) -> (r: Option<&PackageInfo>)
        requires
            self.wf(),
        ensures
            r is Some <==> knows(self.packages(), name@),
            r is Some ==> *(r->Some_0) == self.packages()[package_slot(self.packages(), name@)]
                && r->Some_0.name@ == name@,
    {
        match self.slot(name) {
            Some(i) => Some(&self.packages[i]),
            None => None,
        }
    }

    /// The packages that a search for `query` finds, in catalogue order:
    /// those with the query in their name, description or keywords.
    pub fn search_packages(&self, query: &str) -> (r: Vec<&PackageInfo>)
        ensures
            r@.map_values(|p: &PackageInfo| *p) == self.packages().filter(
                |p: PackageInfo| answers_query(p, query@),
            ),
    {
        let mut out: Vec<&PackageInfo> = Vec::new();
        let ghost pred = |p: PackageInfo| answers_query(p, query@);
        let ghost deref = |p: &PackageInfo| *p;
        let mut i: usize = 0;
        proof {
            reveal(Seq::filter);
            assert(out@.map_values(deref) =~= self.packages().subrange(0, 0).filter(pred));
        }
        while i < self.packages.len()
            invariant
                i <= self.packages@.len(),
                pred == (|p: PackageInfo| answers_query(p, query@)),
                deref == (|p: &PackageInfo| *p),
                out@.map_values(deref) == self.packages().subrange(0, i as int).filter(pred),
            decreases self.packages@.len() - i,
        {
            let pkg = &self.packages[i];
            let ghost before = out@.map_values(deref);
            let hit = contains(pkg.name.as_str(), query) || contains(
                pkg.description.as_str(),
                query,
            ) || any_contains(&pkg.keywords, query);
            if hit {
                out.push(pkg);
            }
            proof {
                reveal(Seq::filter);
                let next = self.packages().subrange(0, i + 1);
                assert(next.drop_last() =~= self.packages().subrange(0, i as int));
                assert(next.last() == *pkg);
                if hit {
                    assert(out@.map_values(deref) =~= before.push(*pkg));
                }
            }
            i += 1;
        }
        assert(self.packages().subrange(0, i as int) =~= self.packages());
        out
    }

    /// Picks the release of `package` whose version is exactly
    /// `version_req`; no range, caret or tilde matching is done. Where
    /// several releases carry the version, the first is taken. Where none
    /// does, nothing is found.
    pub fn resolve_version<'a>(&self, package: &'a PackageInfo, version_req: &str) -> (r: Result<
        &'a PackageVersion,
        ForgeKitError,
    >)
        ensures
            r is Ok <==> has_version(*package, version_req@),
            r is Ok ==> exists|i: int|
                first_version_at(*package, version_req@, i) && *(r->Ok_0) == package.versions@[i],
            r is Err ==> r->Err_0 is NotFound && r->Err_0.detail() == version_failure(
                package.name@,
                version_req@,
            ),
    {
        let mut i: usize = 0;
        while i < package.versions.len()
            invariant
                i <= package.versions@.len(),
                forall|k: int| 0 <= k < i ==> package.versions@[k].version@ != version_req@,
            decreases package.versions@.len() - i,
        {
            if same_text(package.versions[i].version.as_str(), version_req) {
                assert(first_version_at(*package, version_req@, i as int));
                return Ok(&package.versions[i]);
            }
            i += 1;
        }
        let mut detail = String::from_str("Version ");
        detail.append(version_req);
        detail.append(" not found for package ");
        detail.append(package.name.as_str());
        Err(ForgeKitError::NotFound(detail))
    }

    /// Resolves the dependencies in order. All of them are resolved, or the
    /// first that cannot be is reported as not found.
    pub fn resolve_dependencies(&self, dependencies: &[Dependency]) -> (r: Result<
        Vec<ResolvedDependency>,
        ForgeKitError,
    >)
        requires
            self.wf(),
        ensures
            r is Ok <==> forall|i: int|
                0 <= i < dependencies@.len() ==> resolvable(
                    self.packages(),
                    #[trigger] dependencies@[i]@,
                ),
            r is Ok ==> r->Ok_0@.len() == dependencies@.len() && forall|i: int|
                0 <= i < dependencies@.len() ==> resolves_to(
                    self.packages(),
                    dependencies@[i]@,
                    #[trigger] r->Ok_0@[i],
                ),
            r is Err ==> r->Err_0 is NotFound && exists|i: int|
                {
                    &&& 0 <= i < dependencies@.len()
                    &&& !resolvable(self.packages(), #[trigger] dependencies@[i]@)
                    &&& forall|k: int|
                        0 <= k < i ==> resolvable(self.packages(), #[trigger] dependencies@[k]@)
                    &&& r->Err_0.detail() == resolution_failure(
                        self.packages(),
                        dependencies@[i]@,
                    )
                },
    {
        let mut resolved: Vec<ResolvedDependency> = Vec::new();
        let mut i: usize = 0;
        while i < dependencies.len()
            invariant
                i <= dependencies@.len(),
                self.wf(),
                resolved@.len() == i,
                forall|k: int|
                    0 <= k < i ==> resolvable(self.packages(), #[trigger] dependencies@[k]@),
                forall|k: int|
                    0 <= k < i ==> resolves_to(
                        self.packages(),
                        dependencies@[k]@,
                        #[trigger] resolved@[k],
                    ),
            decreases dependencies@.len() - i,
        {
            let dep = &dependencies[i];
            let package = match self.find_package(dep.name.as_str()) {
                Some(p) => p,
                None => {
                    assert(!resolvable(self.packages(), dependencies@[i as int]@));
                    return Err(
                        ForgeKitError::NotFound(join2("Package not found: ", dep.name.as_str())),
                    );
                },
            };
            let version = match self.resolve_version(package, dep.version.as_str()) {
                Ok(v) => v,
                Err(e) => {
                    assert(!resolvable(self.packages(), dependencies@[i as int]@));
                    return Err(e);
                },
            };
            let entry = ResolvedDependency {
                name: dep.name.clone(),
                version: version.version.clone(),
                download_url: version.download_url.clone(),
            };
            assert(resolves_to(self.packages(), dependencies@[i as int]@, entry));
            resolved.push(entry);
            i += 1;
        }
        Ok(resolved)
    }
}

/// Exact-version resolution: a requirement resolves only against a release
/// whose version is the very same text. A package whose only release is
/// `available` does not satisfy a requirement that differs from it in any
/// character, however close the two may read.
pub proof fn law_exact_version(pkg: PackageInfo, available: Seq<char>, req: Seq<char>)
    requires
        pkg.versions@.len() == 1,
        pkg.versions@[0].version@ == available,
    ensures
        has_version(pkg, req) <==> req == available,
        has_version(pkg, req) ==> first_version_at(pkg, req, 0),
{
    if req == available {
        assert(pkg.versions@[0].version@ == req);
    }
}

/// Edits a project's dependency list against a catalogue of known packages.
#[derive(Debug, Clone)]
pub struct DependencyManager {
    registry: DependencyRegistry,
}

impl DependencyManager {
    /// The catalogue that this manager resolves against.
    pub closed spec fn catalogue(&self) -> Seq<PackageInfo> {
        self.registry.packages()
    }

    /// What every manager upholds: its catalogue has one package per name.
    pub open spec fn wf(&self) -> bool {
        distinct_names(self.catalogue())
    }

    /// A manager with an empty catalogue.
    pub fn new() -> (r: Self)
        ensures
            r.wf(),
            r.catalogue().len() == 0,
    {
        DependencyManager { registry: DependencyRegistry::new() }
    }

    /// Enters `info` into the catalogue, in place of a package of the same
    /// name where there is one, and at the end otherwise.
    pub fn add_to_registry(&mut self, info: PackageInfo)
        requires
            old(self).wf(),
        ensures
            final(self).wf(),
            knows(old(self).catalogue(), info.name@) ==> final(self).catalogue() == old(
                self,
            ).catalogue().update(package_slot(old(self).catalogue(), info.name@), info),
            !knows(old(self).catalogue(), info.name@) ==> final(self).catalogue() == old(
                self,
            ).catalogue().push(info),
    {
        self.registry.add_package(info);
    }

    /// Declares a dependency on `package_name` at `version` in the manifest.
    /// A name that the manifest already declares is a conflict; a package
    /// that the catalogue does not know, or that has no release of exactly
    /// this version, is not found. On any failure the manifest stays as it
    /// was. The conflict is looked for first.
    pub fn add_dependency(
        &self,
        config: &mut ProjectConfig,
        package_name: &str,
        version: &str,
    ) -> (r: Result<(), ForgeKitError>)
        requires
            self.wf(),
        ensures
            final(config).same_head(old(config)),
            unique_names(old(config).deps()) ==> unique_names(final(config).deps()),
            r is Err ==> *final(config) == *old(config),
            declares(old(config).deps(), package_name@) ==> r is Err && r->Err_0 is Conflict
                && r->Err_0.detail() == "Dependency "@ + package_name@ + " already exists"@,
            !declares(old(config).deps(), package_name@) && !resolvable(
                self.catalogue(),
                DependencyView { name: package_name@, version: version@, source: None },
            ) ==> r is Err && r->Err_0 is NotFound && r->Err_0.detail() == (if knows(
                self.catalogue(),
                package_name@,
            ) {
                version_failure(package_name@, version@)
            } else {
                "Package "@ + package_name@ + " not found"@
            }),
            !declares(old(config).deps(), package_name@) && resolvable(
                self.catalogue(),
                DependencyView { name: package_name@, version: version@, source: None },
            ) ==> r is Ok && final(config).deps() == old(config).deps().push(
                DependencyView { name: package_name@, version: version@, source: None },
            ),
    {
        if config.has_dependency(package_name) {
            let mut detail = String::from_str("Dependency ");
            detail.append(package_name);
            detail.append(" already exists");
            return Err(ForgeKitError::Conflict(detail));
        }
        let dep_info = match self.registry.find_package(package_name) {
            Some(p) => p,
            None => {
                let mut detail = String::from_str("Package ");
                detail.append(package_name);
                detail.append(" not found");
                return Err(ForgeKitError::NotFound(detail));
            },
        };
        match self.registry.resolve_version(dep_info, version) {
            Ok(_) => {},
            Err(e) => {
                return Err(e);
            },
        }
        config.declare_dependency(package_name, version)
    }

    /// Takes every declaration of `package_name` out of the manifest. A name
    /// that is not declared is no failure: the manifest stays as it was.
    pub fn remove_dependency(&self, config: &mut ProjectConfig, package_name: &str) -> (r: Result<
        (),
        ForgeKitError,
    >)
        ensures
            r is Ok,
            final(config).same_head(old(config)),
            final(config).deps() == without_name(old(config).deps(), package_name@),
            unique_names(old(config).deps()) ==> unique_names(final(config).deps()),
    {
        config.forget_dependency(package_name);
        Ok(())
    }

    /// All packages of the catalogue, in catalogue order.
    pub fn list_available_packages(&self) -> (r: Vec<&PackageInfo>)
        ensures
            r@.map_values(|p: &PackageInfo| *p) == self.catalogue(),
    {
        let mut out: Vec<&PackageInfo> = Vec::new();
        let ghost deref = |p: &PackageInfo| *p;
        let mut i: usize = 0;
        assert(out@.map_values(deref) =~= self.catalogue().subrange(0, 0));
        while i < self.registry.packages.len()
            invariant
                i <= self.registry.packages@.len(),
                deref == (|p: &PackageInfo| *p),
                out@.map_values(deref) == self.catalogue().subrange(0, i as int),
            decreases self.registry.packages@.len() - i,
        {
            let ghost before = out@.map_values(deref);
            out.push(&self.registry.packages[i]);
            assert(out@.map_values(deref) =~= before.push(self.catalogue()[i as int]));
            i += 1;
            assert(out@.map_values(deref) =~= self.catalogue().subrange(0, i as int));
        }
        assert(self.catalogue().subrange(0, i as int) =~= self.catalogue());
        out
    }

    /// The packages that a search for `query` finds, in catalogue order.
    pub fn search_packages(&self, query: &str) -> (r: Vec<&PackageInfo>)
        ensures
            r@.map_values(|p: &PackageInfo| *p) == self.catalogue().filter(
                |p: PackageInfo| answers_query(p, query@),
            ),
    {
        self.registry.search_packages(query)
    }
}

impl Default for DependencyManager {
    fn default() -> (r: Self)
        ensures
            r.wf(),
            r.catalogue().len() == 0,
    {
        DependencyManager::new()
    }
}

} // verus!
