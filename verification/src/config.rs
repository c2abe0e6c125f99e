//! The project manifest: name, version, declared dependencies and build
//! settings, and the edits that the package tools make to the dependency list.

use vstd::prelude::*;
use vstd::string::*;
use crate::error::ForgeKitError;
use crate::text::{same_text, join3};

verus! {

/// A declared dependency of a project.
#[derive(Debug, Clone)]
pub struct Dependency {
    /// Dependency name
    pub name: String,
    /// Version requirement (an exact version)
    pub version: String,
    /// Where the dependency comes from, if not the default source
    pub source: Option<String>,
}

/// Build settings of a project.
#[derive(Debug, Clone)]
pub struct BuildConfig {
    /// Target architecture
    pub target: String,
    /// Optimization level
    pub opt_level: String,
    /// Additional compiler flags
    pub rustflags: Vec<String>,
    /// Output directory
    pub output_dir: String,
}

/// The manifest of a project.
#[derive(Debug, Clone)]
pub struct ProjectConfig {
    /// Project name
    pub name: String,
    /// Project version
    pub version: String,
    /// Project description
    pub description: Option<String>,
    /// Authors
    pub authors: Vec<String>,
    /// Declared dependencies
    pub dependencies: Vec<Dependency>,
    /// Build settings
    pub build: BuildConfig,
}

/// A declared dependency as plain values.
pub ghost struct DependencyView {
    pub name: Seq<char>,
    pub version: Seq<char>,
    pub source: Option<Seq<char>>,
}

impl View for Dependency {
    type V = DependencyView;

    open spec fn view(&self) -> DependencyView {
        DependencyView {
            name: self.name@,
            version: self.version@,
            source: match self.source {
                Some(s) => Some(s@),
                None => None,
            },
        }
    }
}

/// A dependency list as plain values.
pub open spec fn deps_of(deps: Seq<Dependency>) -> Seq<DependencyView> {
    deps.map_values(|d: Dependency| d@)
}

/// Whether the list declares a dependency called `name`.
pub open spec fn declares(deps: Seq<DependencyView>, name: Seq<char>) -> bool {
    exists|i: int| 0 <= i < deps.len() && deps[i].name == name
}

/// Whether `i` is the first position of the list that declares `name`.
pub open spec fn first_declared_at(deps: Seq<DependencyView>, name: Seq<char>, i: int) -> bool {
    &&& 0 <= i < deps.len()
    &&& deps[i].name == name
    &&& forall|k: int| 0 <= k < i ==> deps[k].name != name
}

/// No name is declared twice.
pub open spec fn unique_names(deps: Seq<DependencyView>) -> bool {
    forall|i: int, j: int| 0 <= i < j < deps.len() ==> deps[i].name != deps[j].name
}

/// The list without the dependencies called `name`.
pub open spec fn without_name(deps: Seq<DependencyView>, name: Seq<char>) -> Seq<DependencyView> {
    deps.filter(|d: DependencyView| d.name != name)
}

impl Default for ProjectConfig {
    /// The manifest of a project that has not been described yet.
    fn default() -> (c: Self)
        ensures
            c.name@ == "unnamed"@,
            c.version@ == "0.1.0"@,
            c.description is None,
            c.authors@.len() == 0,
            c.dependencies@.len() == 0,
            c.build.target@ == "ledokoz"@,
            c.build.opt_level@ == "2"@,
            c.build.rustflags@.len() == 0,
            c.build.output_dir@ == "target"@,
    {
        ProjectConfig {
            name: String::from_str("unnamed"),
            version: String::from_str("0.1.0"),
            description: None,
            authors: Vec::new(),
            dependencies: Vec::new(),
            build: BuildConfig {
                target: String::from_str("ledokoz"),
                opt_level: String::from_str("2"),
                rustflags: Vec::new(),
                output_dir: String::from_str("target"),
            },
        }
    }
}

impl ProjectConfig {
    /// The declared dependencies as plain values.
    pub open spec fn deps(&self) -> Seq<DependencyView> {
        deps_of(self.dependencies@)
    }

    /// Whether everything but the dependency list is the same in both.
    pub open spec fn same_head(&self, other: &ProjectConfig) -> bool {
        &&& self.name == other.name
        &&& self.version == other.version
        &&& self.description == other.description
        &&& self.authors == other.authors
        &&& self.build == other.build
    }

    /// The first position that declares `name`, if any.
    pub fn position_of(&self, name: &str) -> (r: Option<usize>)
        ensures
            r is Some <==> declares(self.deps(), name@),
            r is Some ==> first_declared_at(self.deps(), name@, r->Some_0 as int),
    {
        let mut i: usize = 0;
        while i < self.dependencies.len()
            invariant
                i <= self.dependencies@.len(),
                forall|k: int| 0 <= k < i ==> self.deps()[k].name != name@,
            decreases self.dependencies@.len() - i,
        {
            if same_text(self.dependencies[i].name.as_str(), name) {
                assert(self.deps()[i as int].name == name@);
                return Some(i);
            }
            i += 1;
        }
        None
    }

    /// Whether the manifest declares a dependency called `name`.
    pub fn has_dependency(&self, name: &str) -> (r: bool)
        ensures
            r == declares(self.deps(), name@),
    {
        self.position_of(name).is_some()
    }

    /// Declares a new dependency on `name` at `version`. A name that is
    /// already declared is rejected as a conflict, and the manifest stays as
    /// it was.
    pub fn declare_dependency(&mut self, name: &str, version: &str) -> (r: Result<
        (),
        ForgeKitError,
    >)
        ensures
            final(self).same_head(old(self)),
            unique_names(old(self).deps()) ==> unique_names(final(self).deps()),
            declares(old(self).deps(), name@) ==> {
                &&& r is Err
                &&& r->Err_0 is Conflict
                &&& r->Err_0.detail() == "Dependency "@ + name@ + " already exists"@
                &&& *final(self) == *old(self)
            },
            !declares(old(self).deps(), name@) ==> {
                &&& r is Ok
                &&& final(self).deps() == old(self).deps().push(
                    DependencyView { name: name@, version: version@, source: None },
                )
            },
    {
        if self.has_dependency(name) {
            return Err(ForgeKitError::Conflict(join3("Dependency ", name, " already exists")));
        }
        let ghost before = self.deps();
        self.dependencies.push(
            Dependency {
                name: String::from_str(name),
                version: String::from_str(version),
                source: None,
            },
        );
        assert(self.deps() =~= before.push(
            DependencyView { name: name@, version: version@, source: None },
        ));
        Ok(())
    }

    /// Records that `name` is installed at `version`: the first declaration
    /// of `name` gets the new version and keeps its source; where there is
    /// none, a declaration from the registry is added at the end.
    pub fn record_dependency(&mut self, name: &str, version: &str)
        ensures
            final(self).same_head(old(self)),
            unique_names(old(self).deps()) ==> unique_names(final(self).deps()),
            !declares(old(self).deps(), name@) ==> final(self).deps() == old(self).deps().push(
                DependencyView { name: name@, version: version@, source: Some("registry"@) },
            ),
            declares(old(self).deps(), name@) ==> exists|i: int|
                {
                    &&& first_declared_at(old(self).deps(), name@, i)
                    &&& final(self).deps() == old(self).deps().update(
                        i,
                        DependencyView {
                            name: name@,
                            version: version@,
                            source: old(self).deps()[i].source,
                        },
                    )
                },
    {
        let ghost before = self.deps();
        match self.position_of(name) {
            Some(i) => {
                self.dependencies[i].version = String::from_str(version);
                assert(self.deps() =~= before.update(
                    i as int,
                    DependencyView { name: name@, version: version@, source: before[i as int].source },
                ));
                assert(first_declared_at(before, name@, i as int));
            },
            None => {
                self.dependencies.push(
                    Dependency {
                        name: String::from_str(name),
                        version: String::from_str(version),
                        source: Some(String::from_str("registry")),
                    },
                );
                assert(self.deps() =~= before.push(
                    DependencyView { name: name@, version: version@, source: Some("registry"@) },
                ));
            },
        }
    }

    /// Takes every declaration of `name` out of the manifest. A name that is
    /// not declared leaves the manifest as it was.
    pub fn forget_dependency(&mut self, name: &str)
        ensures
            final(self).same_head(old(self)),
            final(self).deps() == without_name(old(self).deps(), name@),
            unique_names(old(self).deps()) ==> unique_names(final(self).deps()),
    {
        proof {
            lemma_removal_keeps_unique(self.deps(), name@);
        }
        let ghost all = self.deps();
        let ghost keep = |d: DependencyView| d.name != name@;
        let n: usize = self.dependencies.len();
        let mut kept: usize = 0;
        let mut seen: usize = 0;
        proof {
            reveal(Seq::filter);
            assert(all.subrange(0, 0).filter(keep) =~= self.deps().subrange(0, 0));
            assert(self.deps().subrange(0, n as int) =~= all.subrange(0, n as int));
        }
        while seen < n
            invariant
                n == all.len(),
                kept <= seen <= n,
                keep == (|d: DependencyView| d.name != name@),
                self.dependencies@.len() == kept + (n - seen),
                self.deps().subrange(0, kept as int) == all.subrange(0, seen as int).filter(keep),
                self.deps().subrange(kept as int, self.dependencies@.len() as int)
                    == all.subrange(seen as int, n as int),
                self.same_head(old(self)),
            decreases n - seen,
        {
            let ghost cur = self.deps();
            let ghost here = cur[kept as int];
            assert(here == all.subrange(seen as int, n as int)[0]);
            let hit = same_text(self.dependencies[kept].name.as_str(), name);
            proof {
                reveal(Seq::filter);
                let next = all.subrange(0, seen + 1);
                assert(next.drop_last() =~= all.subrange(0, seen as int));
                assert(next.last() == here);
                assert(keep(here) == !hit);
            }
            if hit {
                self.dependencies.remove(kept);
                proof {
                    assert(self.deps() =~= cur.remove(kept as int));
                    assert(self.deps().subrange(0, kept as int) =~= cur.subrange(0, kept as int));
                    assert(self.deps().subrange(kept as int, self.dependencies@.len() as int)
                        =~= cur.subrange(kept as int, cur.len() as int).subrange(1, n - seen));
                    assert(all.subrange(seen as int, n as int).subrange(1, n - seen)
                        =~= all.subrange(seen + 1, n as int));
                }
            } else {
                proof {
                    assert(cur.subrange(0, kept + 1) =~= cur.subrange(0, kept as int).push(here));
                    assert(cur.subrange(kept + 1, cur.len() as int) =~= cur.subrange(
                        kept as int,
                        cur.len() as int,
                    ).subrange(1, n - seen));
                    assert(all.subrange(seen as int, n as int).subrange(1, n - seen)
                        =~= all.subrange(seen + 1, n as int));
                }
                kept += 1;
            }
            seen += 1;
        }
        proof {
            assert(all.subrange(0, n as int) =~= all);
            assert(self.deps().subrange(0, kept as int) =~= self.deps());
        }
    }
}

/// Every dependency that stays after a removal was declared before, and
/// names that were declared once are still declared once.
pub proof fn lemma_removal_keeps_unique(deps: Seq<DependencyView>, name: Seq<char>)
    ensures
        forall|p: int|
            0 <= p < without_name(deps, name).len() ==> declares(
                deps,
                (#[trigger] without_name(deps, name)[p]).name,
            ),
        unique_names(deps) ==> unique_names(without_name(deps, name)),
    decreases deps.len(),
{
    reveal(Seq::filter);
    if deps.len() > 0 {
        let init = deps.drop_last();
        let last = deps.last();
        lemma_removal_keeps_unique(init, name);
        let w0 = without_name(init, name);
        let w = without_name(deps, name);
        assert(deps[deps.len() - 1] == last);
        assert forall|p: int| 0 <= p < w0.len() implies declares(deps, (#[trigger] w0[p]).name) by {
            let i = choose|i: int| 0 <= i < init.len() && init[i].name == w0[p].name;
            assert(deps[i] == init[i]);
        }
        if last.name != name {
            assert(w =~= w0.push(last));
        } else {
            assert(w =~= w0);
        }
        if unique_names(deps) {
            assert forall|a: int, b: int| 0 <= a < b < init.len() implies init[a].name
                != init[b].name by {
                assert(deps[a] == init[a] && deps[b] == init[b]);
            }
            assert forall|a: int, b: int| 0 <= a < b < w.len() implies w[a].name != w[b].name by {
                if b < w0.len() {
                    assert(w[a] == w0[a] && w[b] == w0[b]);
                } else {
                    assert(w[b] == last);
                    assert(w[a] == w0[a]);
                    let i = choose|i: int| 0 <= i < init.len() && init[i].name == w0[a].name;
                    assert(deps[i] == init[i]);
                }
            }
        }
    }
}

/// Removal is idempotent: taking out a name that is not declared changes
/// nothing, and after a removal the name is not declared any more.
pub proof fn law_removal(deps: Seq<DependencyView>, name: Seq<char>)
    ensures
        !declares(deps, name) ==> without_name(deps, name) == deps,
        !declares(without_name(deps, name), name),
        without_name(without_name(deps, name), name) == without_name(deps, name),
    decreases deps.len(),
{
    reveal(Seq::filter);
    let keep = |d: DependencyView| d.name != name;
    if deps.len() > 0 {
        let init = deps.drop_last();
        law_removal(init, name);
        let w0 = without_name(init, name);
        let w = without_name(deps, name);
        if declares(w, name) {
            let i = choose|i: int| 0 <= i < w.len() && w[i].name == name;
            if i < w0.len() {
                assert(w0[i] == w[i]);
                assert(declares(w0, name));
            }
            assert(false);
        }
        if !declares(deps, name) {
            if declares(init, name) {
                let i = choose|i: int| 0 <= i < init.len() && init[i].name == name;
                assert(deps[i] == init[i]);
            }
            assert(deps[deps.len() - 1].name != name);
            assert(w =~= w0.push(deps.last()));
            assert(w =~= deps);
        }
        if keep(deps.last()) {
            assert(w =~= w0.push(deps.last()));
            assert(w.drop_last() =~= w0);
            assert(without_name(w, name) =~= without_name(w0, name).push(deps.last()));
        }
    } else {
        assert(without_name(deps, name) =~= deps);
    }
}

} // verus!
