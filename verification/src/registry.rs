//! The package index and the decisions of the registry client: what a
//! lookup or a search answers from the local index, when the remote service
//! has to be asked and with which address, and how its answers become
//! package metadata.

use vstd::prelude::*;
use vstd::string::*;
use crate::error::ForgeKitError;
use crate::text::{same_text, contains, has_substring, join2, join3, to_chars, from_chars, remove_all, without_all, views_of};

verus! {

/// Where the registry lives and where its files are kept.
#[derive(Debug, Clone)]
pub struct RegistryConfig {
    /// Base URL for the registry
    pub base_url: String,
    /// Token for authenticated requests (optional)
    pub github_token: Option<String>,
    /// Directory of downloaded archives
    pub cache_dir: String,
    /// Directory of the index document
    pub index_dir: String,
}

/// A dependency named by a package release.
#[derive(Debug, Clone)]
pub struct DependencySpec {
    /// Dependency name
    pub name: String,
    /// Version requirement
    pub version: String,
    /// Optional dependency
    pub optional: bool,
    /// Development dependency
    pub dev: bool,
}

/// A resolved package release.
#[derive(Debug, Clone)]
pub struct PackageMetadata {
    /// Package name
    pub name: String,
    /// Package version
    pub version: String,
    /// Package description
    pub description: String,
    /// Package authors
    pub authors: Vec<String>,
    /// Repository URL
    pub repository: String,
    /// License
    pub license: String,
    /// Keywords
    pub keywords: Vec<String>,
    /// Categories
    pub categories: Vec<String>,
    /// Dependencies
    pub dependencies: Vec<DependencySpec>,
    /// Build targets
    pub targets: Vec<String>,
    /// Release date
    pub release_date: String,
    /// Download count
    pub downloads: u64,
}

/// One release as the index knows it.
#[derive(Debug, Clone)]
pub struct VersionInfo {
    /// Version string
    pub version: String,
    /// Git tag or commit
    pub git_ref: String,
    /// Archive URL
    pub archive_url: String,
    /// Published date
    pub published: String,
    /// Package checksum (may be empty)
    pub checksum: String,
}

/// What the index knows of one package. A release is found under its own
/// version string.
#[derive(Debug, Clone)]
pub struct IndexEntry {
    /// Package name
    pub name: String,
    /// Known releases
    pub versions: Vec<VersionInfo>,
    /// Latest version
    pub latest: String,
}

/// A package release as plain values.
pub ghost struct PackageMetadataView {
    pub name: Seq<char>,
    pub version: Seq<char>,
    pub description: Seq<char>,
    pub authors: Seq<Seq<char>>,
    pub repository: Seq<char>,
    pub license: Seq<char>,
    pub keywords: Seq<Seq<char>>,
    pub categories: Seq<Seq<char>>,
    pub dependency_count: nat,
    pub targets: Seq<Seq<char>>,
    pub release_date: Seq<char>,
    pub downloads: u64,
}

impl View for PackageMetadata {
    type V = PackageMetadataView;

    open spec fn view(&self) -> PackageMetadataView {
        PackageMetadataView {
            name: self.name@,
            version: self.version@,
            description: self.description@,
            authors: views_of(self.authors@),
            repository: self.repository@,
            license: self.license@,
            keywords: views_of(self.keywords@),
            categories: views_of(self.categories@),
            dependency_count: self.dependencies@.len(),
            targets: views_of(self.targets@),
            release_date: self.release_date@,
            downloads: self.downloads,
        }
    }
}

/// The views of a list of package releases.
pub open spec fn metadata_views(v: Seq<PackageMetadata>) -> Seq<PackageMetadataView> {
    v.map_values(|m: PackageMetadata| m@)
}

/// Whether the entry has a release filed under exactly `version`.
pub open spec fn entry_has_version(entry: IndexEntry, version: Seq<char>) -> bool {
    exists|i: int| 0 <= i < entry.versions@.len() && entry.versions@[i].version@ == version
}

/// Whether `i` is the first release of the entry filed under exactly `version`.
pub open spec fn entry_version_at(entry: IndexEntry, version: Seq<char>, i: int) -> bool {
    &&& 0 <= i < entry.versions@.len()
    &&& entry.versions@[i].version@ == version
    &&& forall|k: int| 0 <= k < i ==> entry.versions@[k].version@ != version
}

/// The first position of the entry that holds `version`; the number of
/// releases where there is none.
pub open spec fn version_slot(entry: IndexEntry, version: Seq<char>) -> int {
    if entry_has_version(entry, version) {
        choose|i: int| entry_version_at(entry, version, i)
    } else {
        entry.versions@.len() as int
    }
}

/// The publish date of the release filed under `version`, or the empty
/// text where the entry has no such release.
pub open spec fn published_of(entry: IndexEntry, version: Seq<char>) -> Seq<char> {
    if entry_has_version(entry, version) {
        entry.versions@[version_slot(entry, version)].published@
    } else {
        Seq::empty()
    }
}

/// Whether a search for `query` finds the entry: the query occurs in the
/// package name or in one of its version strings.
pub open spec fn entry_answers(entry: IndexEntry, query: Seq<char>) -> bool {
    has_substring(entry.name@, query) || exists|i: int|
        0 <= i < entry.versions@.len() && has_substring(entry.versions@[i].version@, query)
}

/// The metadata that the local index gives for a release: the index holds
/// no description, authors or license, so those are filled in by rule.
pub open spec fn local_metadata(
    name: Seq<char>,
    version: Seq<char>,
    base_url: Seq<char>,
    published: Seq<char>,
) -> PackageMetadataView {
    PackageMetadataView {
        name: name,
        version: version,
        description: "Package "@ + name,
        authors: Seq::empty(),
        repository: base_url + "/"@ + name,
        license: "MIT"@,
        keywords: Seq::empty(),
        categories: Seq::empty(),
        dependency_count: 0,
        targets: seq!["ledokoz"@],
        release_date: published,
        downloads: 0,
    }
}

/// The local metadata of the latest release of an entry.
pub open spec fn entry_metadata(entry: IndexEntry, base_url: Seq<char>) -> PackageMetadataView {
    local_metadata(entry.name@, entry.latest@, base_url, published_of(entry, entry.latest@))
}

/// What a search of the entries for `query` answers: the metadata of each
/// entry that the query finds, in the order of the entries.
pub open spec fn local_hits(entries: Seq<IndexEntry>, query: Seq<char>, base_url: Seq<char>) -> Seq<
    PackageMetadataView,
>
    decreases entries.len(),
{
    if entries.len() == 0 {
        Seq::empty()
    } else {
        let before = local_hits(entries.drop_last(), query, base_url);
        if entry_answers(entries.last(), query) {
            before.push(entry_metadata(entries.last(), base_url))
        } else {
            before
        }
    }
}

/// Whether the index holds an entry called `name`.
pub open spec fn indexed(entries: Seq<IndexEntry>, name: Seq<char>) -> bool {
    exists|i: int| 0 <= i < entries.len() && entries[i].name@ == name
}

/// A position of the entry called `name`.
pub open spec fn entry_slot(entries: Seq<IndexEntry>, name: Seq<char>) -> int {
    choose|i: int| 0 <= i < entries.len() && entries[i].name@ == name
}

/// No two entries share a name.
pub open spec fn distinct_entries(entries: Seq<IndexEntry>) -> bool {
    forall|i: int, j: int| 0 <= i < j < entries.len() ==> entries[i].name@ != entries[j].name@
}

/// The entries after filing `entry`: in place of the entry of the same name
/// where there is one, at the end otherwise.
pub open spec fn filed(entries: Seq<IndexEntry>, entry: IndexEntry) -> Seq<IndexEntry> {
    if indexed(entries, entry.name@) {
        entries.update(entry_slot(entries, entry.name@), entry)
    } else {
        entries.push(entry)
    }
}

/// The index built from a snapshot: its entries filed one after the other,
/// so that of two entries with one name the later stands.
pub open spec fn rebuilt(snapshot: Seq<IndexEntry>) -> Seq<IndexEntry>
    decreases snapshot.len(),
{
    if snapshot.len() == 0 {
        Seq::empty()
    } else {
        filed(rebuilt(snapshot.drop_last()), snapshot.last())
    }
}

/// What the index answers for an exact lookup of `name` at `version`.
pub open spec fn index_answer(
    entries: Seq<IndexEntry>,
    name: Seq<char>,
    version: Seq<char>,
    base_url: Seq<char>,
) -> Option<PackageMetadataView> {
    if indexed(entries, name) && entry_has_version(entries[entry_slot(entries, name)], version) {
        Some(
            local_metadata(
                name,
                version,
                base_url,
                published_of(entries[entry_slot(entries, name)], version),
            ),
        )
    } else {
        None
    }
}

/// A list with the one string `s`.
fn one_text(s: &str) -> (r: Vec<String>)
    ensures
        views_of(r@) == seq![s@],
{
    let mut v: Vec<String> = Vec::new();
    v.push(String::from_str(s));
    assert(views_of(v@) =~= seq![s@]);
    v
}

/// A list of strings with nothing in it.
fn no_texts() -> (r: Vec<String>)
    ensures
        views_of(r@) == Seq::<Seq<char>>::empty(),
{
    let v: Vec<String> = Vec::new();
    assert(views_of(v@) =~= Seq::<Seq<char>>::empty());
    v
}

/// The metadata that the local index gives for a release.
fn make_local_metadata(name: &str, version: &str, base_url: &str, published: &str) -> (r:
    PackageMetadata)
    ensures
        r@ == local_metadata(name@, version@, base_url@, published@),
{
    PackageMetadata {
        name: String::from_str(name),
        version: String::from_str(version),
        description: join2("Package ", name),
        authors: no_texts(),
        repository: join3(base_url, "/", name),
        license: String::from_str("MIT"),
        keywords: no_texts(),
        categories: no_texts(),
        dependencies: Vec::new(),
        targets: one_text("ledokoz"),
        release_date: String::from_str(published),
        downloads: 0,
    }
}

impl IndexEntry {
    /// The first release filed under exactly `version`, if any.
    pub fn find_version(&self, version: &str) -> (r: Option<&VersionInfo>)
        ensures
            r is Some <==> entry_has_version(*self, version@),
            r is Some ==> entry_version_at(*self, version@, version_slot(*self, version@)),
            r is Some ==> *(r->Some_0) == self.versions@[version_slot(*self, version@)],
    {
        let mut i: usize = 0;
        while i < self.versions.len()
            invariant
                i <= self.versions@.len(),
                forall|k: int| 0 <= k < i ==> self.versions@[k].version@ != version@,
            decreases self.versions@.len() - i,
        {
            if same_text(self.versions[i].version.as_str(), version) {
                proof {
                    assert(entry_version_at(*self, version@, i as int));
                    let j = version_slot(*self, version@);
                    assert(entry_version_at(*self, version@, j));
                    assert(j == i);
                }
                return Some(&self.versions[i]);
            }
            i += 1;
        }
        None
    }

    /// Whether a search for `query` finds this entry.
    pub fn answers(&self, query: &str) -> (r: bool)
        ensures
            r == entry_answers(*self, query@),
    {
        if contains(self.name.as_str(), query) {
            return true;
        }
        let mut i: usize = 0;
        while i < self.versions.len()
            invariant
                i <= self.versions@.len(),
                !has_substring(self.name@, query@),
                forall|k: int| 0 <= k < i ==> !has_substring(self.versions@[k].version@, query@),
            decreases self.versions@.len() - i,
        {
            if contains(self.versions[i].version.as_str(), query) {
                return true;
            }
            i += 1;
        }
        false
    }

    /// The local metadata of the latest release of this entry.
    pub fn latest_metadata(&self, base_url: &str) -> (r: PackageMetadata)
        ensures
            r@ == entry_metadata(*self, base_url@),
    {
        match self.find_version(self.latest.as_str()) {
            Some(info) => make_local_metadata(
                self.name.as_str(),
                self.latest.as_str(),
                base_url,
                info.published.as_str(),
            ),
            None => {
                assert(""@ =~= Seq::<char>::empty()) by {
                    reveal_strlit("");
                }
                make_local_metadata(self.name.as_str(), self.latest.as_str(), base_url, "")
            },
        }
    }
}

/// Maps a version requirement to one release of a package. The policy is
/// the exact match of the version text.
#[derive(Debug, Clone)]
pub struct DependencyResolver;

/// The text of the failure to find exactly `requirement` among the releases
/// of the package `name`.
pub open spec fn no_such_release(name: Seq<char>, requirement: Seq<char>) -> Seq<char> {
    "Version "@ + requirement + " not found for package "@ + name
}

impl DependencyResolver {
    /// Resolves `requirement` against the releases of `package`: the
    /// release filed under exactly that version text, the first of them
    /// where there are several. No range, caret or tilde is understood, so
    /// `1.2` does not resolve to a release `1.2.0`.
    pub fn resolve<'a>(package: &'a IndexEntry, requirement: &str) -> (r: Result<
        &'a VersionInfo,
        ForgeKitError,
    >)
        ensures
            r is Ok <==> entry_has_version(*package, requirement@),
            r is Ok ==> *(r->Ok_0) == package.versions@[version_slot(*package, requirement@)]
                && r->Ok_0.version@ == requirement@,
            r is Err ==> r->Err_0 is NotFound && r->Err_0.detail() == no_such_release(
                package.name@,
                requirement@,
            ),
    {
        match package.find_version(requirement) {
            Some(info) => Ok(info),
            None => {
                let mut detail = String::from_str("Version ");
                detail.append(requirement);
                detail.append(" not found for package ");
                detail.append(package.name.as_str());
                Err(ForgeKitError::NotFound(detail))
            },
        }
    }
}

/// Exact-version resolution: against a package whose only release is
/// `available`, a requirement resolves if and only if it is the very same
/// text, and then to that release.
pub proof fn law_exact_resolution(package: IndexEntry, available: Seq<char>, requirement: Seq<char>)
    requires
        package.versions@.len() == 1,
        package.versions@[0].version@ == available,
    ensures
        entry_has_version(package, requirement) <==> requirement == available,
        entry_has_version(package, requirement) ==> version_slot(package, requirement) == 0,
{
    if requirement == available {
        assert(package.versions@[0].version@ == requirement);
        assert(entry_version_at(package, requirement, 0));
        let i = version_slot(package, requirement);
        assert(entry_version_at(package, requirement, i));
    }
}

/// The local index: what is known of each package, one entry per name.
#[derive(Debug, Clone)]
pub struct PackageIndex {
    entries: Vec<IndexEntry>,
}

impl PackageIndex {
    /// The entries, in the order in which their names first came.
    pub closed spec fn entries(&self) -> Seq<IndexEntry> {
        self.entries@
    }

    /// What every index upholds: one entry per name.
    pub open spec fn wf(&self) -> bool {
        distinct_entries(self.entries())
    }

    /// An index that knows no package.
    pub fn new() -> (r: Self)
        ensures
            r.wf(),
            r.entries() == Seq::<IndexEntry>::empty(),
    {
        PackageIndex { entries: Vec::new() }
    }

    /// The position of the entry called `name`, if there is one.
    fn slot(&self, name: &str) -> (r: Option<usize>)
        requires
            self.wf(),
        ensures
            r is Some <==> indexed(self.entries(), name@),
            r is Some ==> r->Some_0 < self.entries().len() && r->Some_0 == entry_slot(
                self.entries(),
                name@,
            ),
    {
        let mut i: usize = 0;
        while i < self.entries.len()
            invariant
                i <= self.entries@.len(),
                self.wf(),
                forall|k: int| 0 <= k < i ==> self.entries@[k].name@ != name@,
            decreases self.entries@.len() - i,
        {
            if same_text(self.entries[i].name.as_str(), name) {
                proof {
                    let j = entry_slot(self.entries(), name@);
                    assert(self.entries()[i as int].name@ == name@);
                    assert(0 <= j < self.entries().len() && self.entries()[j].name@ == name@);
                    assert(j == i);
                }
                return Some(i);
            }
            i += 1;
        }
        None
    }

    /// Files `entry`: in place of the entry of the same name where there is
    /// one, at the end otherwise.
    pub fn insert(&mut self, entry: IndexEntry)
        requires
            old(self).wf(),
        ensures
            final(self).wf(),
            final(self).entries() == filed(old(self).entries(), entry),
    {
        match self.slot(entry.name.as_str()) {
            Some(i) => {
                self.entries[i] = entry;
            },
            None => {
                self.entries.push(entry);
            },
        }
    }

    /// Replaces the whole content of the index by a freshly fetched
    /// snapshot. Nothing of the old content is merged in.
    pub fn refresh(&mut self, snapshot: Vec<IndexEntry>)
        ensures
            final(self).wf(),
            final(self).entries() == rebuilt(snapshot@),
    {
        let ghost all = snapshot@;
        let n: usize = snapshot.len();
        let mut rest = snapshot;
        let mut stack: Vec<IndexEntry> = Vec::new();
        while rest.len() > 0
            invariant
                n == all.len(),
                rest@.len() + stack@.len() == n,
                rest@ == all.subrange(0, rest@.len() as int),
                forall|k: int| 0 <= k < stack@.len() ==> stack@[k] == all[n - 1 - k],
            decreases rest@.len(),
        {
            let e = rest.pop().unwrap();
            stack.push(e);
            assert(rest@ =~= all.subrange(0, rest@.len() as int));
        }
        self.entries = Vec::new();
        assert(all.subrange(0, 0) =~= Seq::<IndexEntry>::empty());
        while stack.len() > 0
            invariant
                n == all.len(),
                stack@.len() <= n,
                forall|k: int| 0 <= k < stack@.len() ==> stack@[k] == all[n - 1 - k],
                self.wf(),
                self.entries() == rebuilt(all.subrange(0, n - stack@.len())),
            decreases stack@.len(),
        {
            let ghost done = n - stack@.len();
            let e = stack.pop().unwrap();
            proof {
                let next = all.subrange(0, done + 1);
                assert(next.drop_last() =~= all.subrange(0, done));
                assert(next.last() == e);
            }
            self.insert(e);
        }
        assert(all.subrange(0, n as int) =~= all);
    }

    /// Exact lookup of `name` at `version`: the local metadata of that
    /// release, or nothing where the package or the version is not known.
    pub fn get(&self, name: &str, version: &str, base_url: &str) -> (r: Option<PackageMetadata>)
        requires
            self.wf(),
        ensures
            match r {
                Some(m) => index_answer(self.entries(), name@, version@, base_url@) == Some(m@),
                None => index_answer(self.entries(), name@, version@, base_url@) is None,
            },
    {
        match self.slot(name) {
            Some(i) => match self.entries[i].find_version(version) {
                Some(info) => Some(
                    make_local_metadata(name, version, base_url, info.published.as_str()),
                ),
                None => None,
            },
            None => None,
        }
    }

    /// The metadata of every entry that a search for `query` finds, in the
    /// order of the entries. No hit is a valid answer.
    pub fn search(&self, query: &str, base_url: &str) -> (r: Vec<PackageMetadata>)
        ensures
            metadata_views(r@) == local_hits(self.entries(), query@, base_url@),
    {
        let mut out: Vec<PackageMetadata> = Vec::new();
        let mut i: usize = 0;
        assert(self.entries().subrange(0, 0) =~= Seq::<IndexEntry>::empty());
        assert(metadata_views(out@) =~= Seq::<PackageMetadataView>::empty());
        while i < self.entries.len()
            invariant
                i <= self.entries@.len(),
                metadata_views(out@) == local_hits(
                    self.entries().subrange(0, i as int),
                    query@,
                    base_url@,
                ),
            decreases self.entries@.len() - i,
        {
            let ghost before = metadata_views(out@);
            proof {
                let next = self.entries().subrange(0, i + 1);
                assert(next.drop_last() =~= self.entries().subrange(0, i as int));
                assert(next.last() == self.entries()[i as int]);
            }
            if self.entries[i].answers(query) {
                let m = self.entries[i].latest_metadata(base_url);
                let ghost mv = m@;
                out.push(m);
                assert(metadata_views(out@) =~= before.push(mv));
            }
            i += 1;
        }
        assert(self.entries().subrange(0, i as int) =~= self.entries());
        out
    }

    /// All entries of the index, in their order.
    pub fn entry_list(&self) -> (r: &Vec<IndexEntry>)
        ensures
            r@ == self.entries(),
    {
        &self.entries
    }

    /// The names of all packages of the index, in the order of the entries.
    pub fn names(&self) -> (r: Vec<String>)
        ensures
            views_of(r@) == self.entries().map_values(|e: IndexEntry| e.name@),
    {
        let mut out: Vec<String> = Vec::new();
        let mut i: usize = 0;
        while i < self.entries.len()
            invariant
                i <= self.entries@.len(),
                out@.len() == i,
                forall|k: int| 0 <= k < i ==> out@[k]@ == self.entries@[k].name@,
            decreases self.entries@.len() - i,
        {
            out.push(self.entries[i].name.clone());
            i += 1;
        }
        assert(views_of(out@) =~= self.entries().map_values(|e: IndexEntry| e.name@));
        out
    }
}

/// One repository of a remote search answer, with the fields that the
/// service left out as `None`.
#[derive(Debug, Clone)]
pub struct RepoRecord {
    pub name: Option<String>,
    pub full_name: Option<String>,
    pub description: Option<String>,
    pub html_url: Option<String>,
}

/// The remote description of one release, with the fields that the service
/// left out as `None`.
#[derive(Debug, Clone)]
pub struct ReleaseRecord {
    pub body: Option<String>,
    pub published_at: Option<String>,
}

/// The most remote search results that are passed on.
pub const REMOTE_SEARCH_CAP: usize = 20;

/// The text of an optional string, or `fallback` where it is left out.
pub open spec fn text_or(o: Option<String>, fallback: Seq<char>) -> Seq<char> {
    match o {
        Some(s) => s@,
        None => fallback,
    }
}

/// The part of `s` before its first `/`; all of `s` where it has none.
pub open spec fn before_slash(s: Seq<char>) -> Seq<char>
    decreases s.len(),
{
    if s.len() == 0 || s[0] == '/' {
        Seq::empty()
    } else {
        seq![s[0]] + before_slash(s.subrange(1, s.len() as int))
    }
}

/// The package name as the remote service knows it: without the tool's
/// prefix, wherever it stands in the name.
pub open spec fn remote_name(name: Seq<char>) -> Seq<char> {
    without_all(name, "forgekit-"@)
}

/// The address of the remote search for `query`.
pub open spec fn search_url(query: Seq<char>) -> Seq<char> {
    "https://api.github.com/search/repositories?q="@ + query
        + "+topic:forgekit-package&sort=stars&order=desc"@
}

/// The address of the remote description of a release.
pub open spec fn release_url(name: Seq<char>, version: Seq<char>) -> Seq<char> {
    "https://api.github.com/repos/"@ + remote_name(name) + "/releases/tags/v"@ + version
}

/// The address that the archive of a release is fetched from.
pub open spec fn archive_url(name: Seq<char>, version: Seq<char>) -> Seq<char> {
    "https://github.com/"@ + remote_name(name) + "/archive/refs/tags/v"@ + version + ".tar.gz"@
}

/// The name of the file that holds the archive of a release in the archive
/// cache.
pub open spec fn archive_file_name(name: Seq<char>, version: Seq<char>) -> Seq<char> {
    name + "-"@ + version + ".tar.gz"@
}

/// The metadata made from the remote description of a release.
pub open spec fn remote_metadata(name: Seq<char>, version: Seq<char>, release: ReleaseRecord)
    -> PackageMetadataView {
    PackageMetadataView {
        name: name,
        version: version,
        description: text_or(release.body, "No description"@),
        authors: seq![before_slash(name)],
        repository: "https://github.com/"@ + name,
        license: "MIT"@,
        keywords: seq!["forgekit"@],
        categories: Seq::empty(),
        dependency_count: 0,
        targets: seq!["ledokoz"@],
        release_date: text_or(release.published_at, Seq::empty()),
        downloads: 0,
    }
}

/// The metadata made from one repository of a remote search answer that was
/// received at the time `now`.
pub open spec fn repo_metadata(record: RepoRecord, now: Seq<char>) -> PackageMetadataView {
    PackageMetadataView {
        name: text_or(record.name, "unknown"@),
        version: "0.1.0"@,
        description: text_or(record.description, Seq::empty()),
        authors: seq![before_slash(text_or(record.full_name, Seq::empty()))],
        repository: text_or(record.html_url, Seq::empty()),
        license: "MIT"@,
        keywords: seq!["forgekit"@],
        categories: Seq::empty(),
        dependency_count: 0,
        targets: seq!["ledokoz"@],
        release_date: now,
        downloads: 0,
    }
}

/// The part of `s` before its first `/`.
pub fn head_before_slash(s: &str) -> (r: String)
    ensures
        r@ == before_slash(s@),
{
    let h = to_chars(s);
    let mut out: Vec<char> = Vec::new();
    let mut i: usize = 0;
    proof {
        assert(h@.subrange(0, h.len() as int) =~= h@);
        assert(out@ + before_slash(h@) =~= before_slash(h@));
    }
    while i < h.len() && h[i] != '/'
        invariant
            i <= h.len(),
            out@ + before_slash(h@.subrange(i as int, h.len() as int)) == before_slash(h@),
        decreases h.len() - i,
    {
        proof {
            let rest = h@.subrange(i as int, h.len() as int);
            assert(rest[0] == h@[i as int]);
            assert(rest.subrange(1, rest.len() as int) =~= h@.subrange(i + 1, h.len() as int));
            assert(out@.push(h@[i as int]) + before_slash(h@.subrange(i + 1, h.len() as int))
                =~= out@ + (seq![rest[0]] + before_slash(rest.subrange(1, rest.len() as int))));
        }
        out.push(h[i]);
        i += 1;
    }
    proof {
        let rest = h@.subrange(i as int, h.len() as int);
        if i < h.len() {
            assert(rest[0] == h@[i as int]);
        }
        assert(before_slash(rest) =~= Seq::<char>::empty());
        assert(out@ + Seq::<char>::empty() =~= out@);
    }
    from_chars(&out)
}

/// A copy of the optional text, or `fallback` where it is left out.
fn text_or_else(o: &Option<String>, fallback: &str) -> (r: String)
    ensures
        r@ == text_or(*o, fallback@),
{
    match o {
        Some(s) => s.clone(),
        None => String::from_str(fallback),
    }
}

/// `Utc::now` of the chrono crate, written out by `DateTime::to_rfc3339`:
/// the current time of the machine's clock as text. Nothing is claimed of
/// the text. The outside code stops the program where the clock stands
/// before 1970.
#[verifier::external_body]
fn current_timestamp() -> (r: String) {
    chrono::Utc::now().to_rfc3339()
}

/// The metadata made from one repository of a remote search answer that
/// was received at the time `now`.
pub fn repo_to_metadata(record: &RepoRecord, now: &str) -> (r: PackageMetadata)
    ensures
        r@ == repo_metadata(*record, now@),
{
    proof {
        reveal_strlit("");
        assert(""@ =~= Seq::<char>::empty());
    }
    let full_name = text_or_else(&record.full_name, "");
    let mut authors: Vec<String> = Vec::new();
    authors.push(head_before_slash(full_name.as_str()));
    assert(views_of(authors@) =~= seq![before_slash(text_or(record.full_name, Seq::empty()))]);
    PackageMetadata {
        name: text_or_else(&record.name, "unknown"),
        version: String::from_str("0.1.0"),
        description: text_or_else(&record.description, ""),
        authors,
        repository: text_or_else(&record.html_url, ""),
        license: String::from_str("MIT"),
        keywords: one_text("forgekit"),
        categories: no_texts(),
        dependencies: Vec::new(),
        targets: one_text("ledokoz"),
        release_date: String::from_str(now),
        downloads: 0,
    }
}

/// The metadata of the first repositories of a remote search answer, at
/// most `REMOTE_SEARCH_CAP` of them, in the order of the answer. Each is
/// stamped with the time at which it is taken over, so its release date
/// is whatever the clock said then.
pub fn search_github_packages(records: &Vec<RepoRecord>) -> (r: Vec<PackageMetadata>)
    ensures
        r@.len() == if records@.len() < REMOTE_SEARCH_CAP {
            records@.len()
        } else {
            REMOTE_SEARCH_CAP as nat
        },
        forall|i: int|
            0 <= i < r@.len() ==> (#[trigger] r@[i])@ == repo_metadata(
                records@[i],
                r@[i].release_date@,
            ),
{
    let mut out: Vec<PackageMetadata> = Vec::new();
    let mut i: usize = 0;
    while i < records.len() && i < REMOTE_SEARCH_CAP
        invariant
            i <= records@.len(),
            i <= REMOTE_SEARCH_CAP,
            out@.len() == i,
            forall|k: int|
                0 <= k < i ==> (#[trigger] out@[k])@ == repo_metadata(
                    records@[k],
                    out@[k].release_date@,
                ),
        decreases records@.len() - i,
    {
        let now = current_timestamp();
        let m = repo_to_metadata(&records[i], now.as_str());
        assert(m@ == repo_metadata(records@[i as int], now@));
        out.push(m);
        i += 1;
    }
    out
}

/// The metadata made from the remote description of a release. Where the
/// remote service has no such release either, the release is not found.
pub fn remote_package_info(name: &str, version: &str, release: Option<&ReleaseRecord>) -> (r:
    Result<PackageMetadata, ForgeKitError>)
    ensures
        match release {
            Some(rel) => r is Ok && r->Ok_0@ == remote_metadata(name@, version@, *rel),
            None => r is Err && r->Err_0 is NotFound && r->Err_0.detail() == name@ + "@"@
                + version@,
        },
{
    proof {
        reveal_strlit("");
        assert(""@ =~= Seq::<char>::empty());
    }
    match release {
        Some(rel) => {
            let mut authors: Vec<String> = Vec::new();
            authors.push(head_before_slash(name));
            assert(views_of(authors@) =~= seq![before_slash(name@)]);
            Ok(
                PackageMetadata {
                    name: String::from_str(name),
                    version: String::from_str(version),
                    description: text_or_else(&rel.body, "No description"),
                    authors,
                    repository: join2("https://github.com/", name),
                    license: String::from_str("MIT"),
                    keywords: one_text("forgekit"),
                    categories: no_texts(),
                    dependencies: Vec::new(),
                    targets: one_text("ledokoz"),
                    release_date: text_or_else(&rel.published_at, ""),
                    downloads: 0,
                },
            )
        },
        None => Err(ForgeKitError::NotFound(join3(name, "@", version))),
    }
}

/// The next step of a package search.
#[derive(Debug, Clone)]
pub enum SearchStep {
    /// The local index answered; these are the results.
    Found(Vec<PackageMetadata>),
    /// The local index found nothing: the remote search at this address is
    /// to be asked.
    AskRemote(String),
}

/// The next step of a package lookup.
#[derive(Debug, Clone)]
pub enum InfoStep {
    /// The local index knows the release.
    Found(PackageMetadata),
    /// The local index does not know it: the remote description at this
    /// address is to be asked.
    AskRemote(String),
}

/// The next step of a download.
#[derive(Debug, Clone)]
pub enum DownloadStep {
    /// The archive is in the archive cache under this file name and is used
    /// as it is.
    Cached(String),
    /// The archive is not in the archive cache. The release has to be
    /// looked up first; only its metadata gives the plan of the fetch.
    Resolve,
}

/// From where the archive of a release is fetched and under which file name
/// it is written to the archive cache.
#[derive(Debug, Clone)]
pub struct FetchPlan {
    pub file_name: String,
    pub url: String,
}

/// The entry point for finding, fetching and caching packages.
#[derive(Debug, Clone)]
pub struct RegistryClient {
    config: RegistryConfig,
}

/// Whether `entry` is the index entry that a refresh files for the package
/// `name` with the single release `version`, published at `now`.
pub open spec fn is_seed_entry(entry: IndexEntry, name: Seq<char>, version: Seq<char>, now: Seq<char>)
    -> bool {
    &&& entry.name@ == name
    &&& entry.latest@ == version
    &&& entry.versions@.len() == 1
    &&& entry.versions@[0].version@ == version
    &&& entry.versions@[0].git_ref@ == "v"@ + version
    &&& entry.versions@[0].archive_url@ == "https://github.com/ledokoz-tech/"@ + name
        + "/archive/v"@ + version + ".tar.gz"@
    &&& entry.versions@[0].published@ == now
    &&& entry.versions@[0].checksum@ == Seq::<char>::empty()
}

/// Whether `snapshot` is the package list that a refresh files at the time `now`.
pub open spec fn is_seed_snapshot(snapshot: Seq<IndexEntry>, now: Seq<char>) -> bool {
    &&& snapshot.len() == 4
    &&& is_seed_entry(snapshot[0], "forgekit-serde"@, "0.1.0"@, now)
    &&& is_seed_entry(snapshot[1], "forgekit-tokio"@, "0.1.0"@, now)
    &&& is_seed_entry(snapshot[2], "forgekit-http"@, "0.1.0"@, now)
    &&& is_seed_entry(snapshot[3], "forgekit-gui"@, "0.1.0"@, now)
}

/// An index built from a snapshot without repeated names is the snapshot.
pub proof fn lemma_rebuilt_of_distinct(snapshot: Seq<IndexEntry>)
    requires
        distinct_entries(snapshot),
    ensures
        rebuilt(snapshot) == snapshot,
    decreases snapshot.len(),
{
    if snapshot.len() > 0 {
        let init = snapshot.drop_last();
        let last = snapshot.last();
        lemma_rebuilt_of_distinct(init);
        if indexed(init, last.name@) {
            let i = entry_slot(init, last.name@);
            assert(snapshot[i] == init[i]);
            assert(snapshot[snapshot.len() - 1] == last);
        }
        assert(init.push(last) =~= snapshot);
    } else {
        assert(rebuilt(snapshot) =~= snapshot);
    }
}

/// The package list of a refresh names no package twice.
pub proof fn lemma_seed_names_distinct(snapshot: Seq<IndexEntry>, now: Seq<char>)
    requires
        is_seed_snapshot(snapshot, now),
    ensures
        distinct_entries(snapshot),
{
    reveal_strlit("forgekit-serde");
    reveal_strlit("forgekit-tokio");
    reveal_strlit("forgekit-http");
    reveal_strlit("forgekit-gui");
    assert("forgekit-serde"@[9] != "forgekit-tokio"@[9]);
    assert("forgekit-serde"@.len() != "forgekit-http"@.len());
    assert("forgekit-serde"@.len() != "forgekit-gui"@.len());
    assert("forgekit-tokio"@.len() != "forgekit-http"@.len());
    assert("forgekit-tokio"@.len() != "forgekit-gui"@.len());
    assert("forgekit-http"@.len() != "forgekit-gui"@.len());
}

/// The index entry for the package `name` with the single release `version`,
/// published at `now`.
fn seed_entry(name: &str, version: &str, now: &str) -> (r: IndexEntry)
    ensures
        is_seed_entry(r, name@, version@, now@),
{
    let mut url = String::from_str("https://github.com/ledokoz-tech/");
    url.append(name);
    url.append("/archive/v");
    url.append(version);
    url.append(".tar.gz");
    let info = VersionInfo {
        version: String::from_str(version),
        git_ref: join2("v", version),
        archive_url: url,
        published: String::from_str(now),
        checksum: String::new(),
    };
    let mut versions: Vec<VersionInfo> = Vec::new();
    versions.push(info);
    IndexEntry { name: String::from_str(name), versions, latest: String::from_str(version) }
}

/// The package list that a refresh files at the time `now`.
pub fn seed_snapshot(now: &str) -> (r: Vec<IndexEntry>)
    ensures
        is_seed_snapshot(r@, now@),
{
    let mut out: Vec<IndexEntry> = Vec::new();
    out.push(seed_entry("forgekit-serde", "0.1.0", now));
    out.push(seed_entry("forgekit-tokio", "0.1.0", now));
    out.push(seed_entry("forgekit-http", "0.1.0", now));
    out.push(seed_entry("forgekit-gui", "0.1.0", now));
    out
}

impl RegistryClient {
    /// The configuration that the client was made with.
    pub closed spec fn config(&self) -> RegistryConfig {
        self.config
    }

    /// A client for the registry described by `config`.
    pub fn new(config: RegistryConfig) -> (r: Self)
        ensures
            r.config() == config,
    {
        RegistryClient { config }
    }

    /// The value of the authorization header of every remote request, where
    /// a token is configured.
    pub fn authorization(&self) -> (r: Option<String>)
        ensures
            match self.config().github_token {
                Some(t) => r is Some && r->Some_0@ == "Bearer "@ + t@,
                None => r is None,
            },
    {
        match &self.config.github_token {
            Some(t) => Some(join2("Bearer ", t.as_str())),
            None => None,
        }
    }

    /// The directory of downloaded archives.
    pub fn cache_dir(&self) -> (r: &str)
        ensures
            r@ == self.config().cache_dir@,
    {
        self.config.cache_dir.as_str()
    }

    /// The directory of the index document.
    pub fn index_dir(&self) -> (r: &str)
        ensures
            r@ == self.config().index_dir@,
    {
        self.config.index_dir.as_str()
    }

    /// What the local index answers to a search for `query`.
    pub fn search_local_index(&self, index: &PackageIndex, query: &str) -> (r: Vec<PackageMetadata>)
        ensures
            metadata_views(r@) == local_hits(index.entries(), query@, self.config().base_url@),
    {
        index.search(query, self.config.base_url.as_str())
    }

    /// Searches for packages: the local index is asked first, and where it
    /// finds anything, that is the answer. Only where it finds nothing the
    /// remote search is asked.
    pub fn search_packages(&self, index: &PackageIndex, query: &str) -> (r: SearchStep)
        ensures
            match r {
                SearchStep::Found(hits) => hits@.len() > 0 && metadata_views(hits@) == local_hits(
                    index.entries(),
                    query@,
                    self.config().base_url@,
                ),
                SearchStep::AskRemote(url) => local_hits(
                    index.entries(),
                    query@,
                    self.config().base_url@,
                ).len() == 0 && url@ == search_url(query@),
            },
    {
        let local = self.search_local_index(index, query);
        if local.len() > 0 {
            SearchStep::Found(local)
        } else {
            SearchStep::AskRemote(
                join3(
                    "https://api.github.com/search/repositories?q=",
                    query,
                    "+topic:forgekit-package&sort=stars&order=desc",
                ),
            )
        }
    }

    /// Looks a release up: the local index is asked first; where it does
    /// not know the release, the remote description is to be asked.
    pub fn get_package_info(&self, index: &PackageIndex, name: &str, version: &str) -> (r:
        InfoStep)
        requires
            index.wf(),
        ensures
            match r {
                InfoStep::Found(m) => index_answer(
                    index.entries(),
                    name@,
                    version@,
                    self.config().base_url@,
                ) == Some(m@),
                InfoStep::AskRemote(url) => index_answer(
                    index.entries(),
                    name@,
                    version@,
                    self.config().base_url@,
                ) is None && url@ == release_url(name@, version@),
            },
    {
        match index.get(name, version, self.config.base_url.as_str()) {
            Some(m) => InfoStep::Found(m),
            None => {
                let short = remove_all(name, "forgekit-");
                let mut url = String::from_str("https://api.github.com/repos/");
                url.append(short.as_str());
                url.append("/releases/tags/v");
                url.append(version);
                InfoStep::AskRemote(url)
            },
        }
    }

    /// The name of the file that holds the archive of a release in the
    /// archive cache.
    pub fn archive_name(&self, name: &str, version: &str) -> (r: String)
        ensures
            r@ == archive_file_name(name@, version@),
    {
        let mut file_name = String::from_str(name);
        file_name.append("-");
        file_name.append(version);
        file_name.append(".tar.gz");
        file_name
    }

    /// Decides how the archive of a release is obtained. `cached` says
    /// whether the archive cache holds a file of the archive's name: its
    /// presence alone makes the archive a hit, with no check of freshness or
    /// content. Otherwise the release is looked up before anything is
    /// fetched: `fetch_plan` takes the metadata that the lookup gave.
    pub fn download_package(&self, name: &str, version: &str, cached: bool) -> (r: DownloadStep)
        ensures
            match r {
                DownloadStep::Cached(file_name) => cached && file_name@ == archive_file_name(
                    name@,
                    version@,
                ),
                DownloadStep::Resolve => !cached,
            },
    {
        if cached {
            DownloadStep::Cached(self.archive_name(name, version))
        } else {
            DownloadStep::Resolve
        }
    }

    /// The plan of the fetch of a release whose metadata was resolved: the
    /// address that is made from its name and version, and the file name of
    /// its archive in the archive cache.
    pub fn fetch_plan(&self, info: &PackageMetadata) -> (r: FetchPlan)
        ensures
            r.file_name@ == archive_file_name(info.name@, info.version@),
            r.url@ == archive_url(info.name@, info.version@),
    {
        let file_name = self.archive_name(info.name.as_str(), info.version.as_str());
        let short = remove_all(info.name.as_str(), "forgekit-");
        let mut url = String::from_str("https://github.com/");
        url.append(short.as_str());
        url.append("/archive/refs/tags/v");
        url.append(info.version.as_str());
        url.append(".tar.gz");
        FetchPlan { file_name, url }
    }

    /// Refreshes the local index: its whole content is replaced by the
    /// package list of this moment, each release published at the time of
    /// the refresh.
    pub fn update_index(&self, index: &mut PackageIndex)
        ensures
            final(index).wf(),
            exists|now: Seq<char>| is_seed_snapshot(final(index).entries(), now),
    {
        let now = current_timestamp();
        let snapshot = seed_snapshot(now.as_str());
        let ghost snap = snapshot@;
        index.refresh(snapshot);
        proof {
            lemma_seed_names_distinct(snap, now@);
            lemma_rebuilt_of_distinct(snap);
            assert(is_seed_snapshot(index.entries(), now@));
        }
    }

    /// The names of all packages of the local index.
    pub fn list_packages(&self, index: &PackageIndex) -> (r: Vec<String>)
        ensures
            views_of(r@) == index.entries().map_values(|e: IndexEntry| e.name@),
    {
        index.names()
    }
}

} // verus!
