use forgekit_core::error::{ErrorKind, ForgeKitError};
use forgekit_core::registry::{
    head_before_slash, DependencyResolver, remote_package_info, repo_to_metadata, search_github_packages, seed_snapshot, DownloadStep,
    IndexEntry, InfoStep, PackageIndex, RegistryClient, RegistryConfig, ReleaseRecord, RepoRecord,
    SearchStep, VersionInfo, REMOTE_SEARCH_CAP,
};

fn config() -> RegistryConfig {
    RegistryConfig {
        base_url: "https://github.com".to_string(),
        github_token: None,
        cache_dir: "cache".to_string(),
        index_dir: "index".to_string(),
    }
}

fn info(version: &str, published: &str) -> VersionInfo {
    VersionInfo {
        version: version.to_string(),
        git_ref: format!("v{}", version),
        archive_url: format!("https://example.org/{}.tar.gz", version),
        published: published.to_string(),
        checksum: String::new(),
    }
}

fn entry(name: &str, versions: Vec<VersionInfo>, latest: &str) -> IndexEntry {
    IndexEntry { name: name.to_string(), versions, latest: latest.to_string() }
}

fn sample_index() -> PackageIndex {
    let mut index = PackageIndex::new();
    index.refresh(vec![
        entry("forgekit-json", vec![info("1.0.0", "2024-01-01"), info("1.2.0", "2024-02-02")], "1.2.0"),
        entry("forgekit-http", vec![info("0.3.0", "2023-03-03")], "0.9.9"),
    ]);
    index
}

#[test]
fn index_lookup_is_exact() {
    let index = sample_index();
    let found = index.get("forgekit-json", "1.0.0", "https://github.com").unwrap();
    assert_eq!(found.name, "forgekit-json");
    assert_eq!(found.version, "1.0.0");
    assert_eq!(found.description, "Package forgekit-json");
    assert!(found.authors.is_empty());
    assert_eq!(found.repository, "https://github.com/forgekit-json");
    assert_eq!(found.license, "MIT");
    assert!(found.keywords.is_empty());
    assert!(found.categories.is_empty());
    assert!(found.dependencies.is_empty());
    assert_eq!(found.targets, vec!["ledokoz".to_string()]);
    assert_eq!(found.release_date, "2024-01-01");
    assert_eq!(found.downloads, 0);
    assert!(index.get("forgekit-json", "1.0", "https://github.com").is_none());
    assert!(index.get("forgekit-yaml", "1.0.0", "https://github.com").is_none());
}

#[test]
fn index_search_by_name_or_version() {
    let index = sample_index();
    let by_name = index.search("json", "base");
    assert_eq!(by_name.len(), 1);
    assert_eq!(by_name[0].version, "1.2.0");
    assert_eq!(by_name[0].release_date, "2024-02-02");
    assert_eq!(by_name[0].repository, "base/forgekit-json");
    let by_version = index.search("0.3", "base");
    assert_eq!(by_version.len(), 1);
    assert_eq!(by_version[0].name, "forgekit-http");
    assert_eq!(by_version[0].version, "0.9.9");
    assert_eq!(by_version[0].release_date, "");
    assert_eq!(index.search("forgekit", "base").len(), 2);
    assert!(index.search("JSON", "base").is_empty());
    assert_eq!(index.search("", "base").len(), 2);
}

#[test]
fn refresh_replaces_everything() {
    let mut index = sample_index();
    index.refresh(vec![
        entry("a", vec![info("1", "x")], "1"),
        entry("b", vec![], ""),
        entry("a", vec![info("2", "y")], "2"),
    ]);
    assert_eq!(index.names(), vec!["a".to_string(), "b".to_string()]);
    assert!(index.get("a", "1", "u").is_none());
    assert_eq!(index.get("a", "2", "u").unwrap().release_date, "y");
    assert!(index.get("forgekit-json", "1.0.0", "u").is_none());
    index.refresh(vec![]);
    assert!(index.names().is_empty());
}

#[test]
fn search_asks_remote_only_without_local_hits() {
    let client = RegistryClient::new(config());
    let index = sample_index();
    match client.search_packages(&index, "http") {
        SearchStep::Found(hits) => {
            assert_eq!(hits.len(), 1);
            assert_eq!(hits[0].repository, "https://github.com/forgekit-http");
        }
        SearchStep::AskRemote(_) => panic!("the local index has a hit"),
    }
    match client.search_packages(&index, "yaml") {
        SearchStep::Found(_) => panic!("the local index has no hit"),
        SearchStep::AskRemote(url) => assert_eq!(
            url,
            "https://api.github.com/search/repositories?q=yaml+topic:forgekit-package&sort=stars&order=desc"
        ),
    }
    assert_eq!(client.search_local_index(&index, "yaml").len(), 0);
}

#[test]
fn lookup_falls_back_to_the_remote_service() {
    let client = RegistryClient::new(config());
    let index = sample_index();
    match client.get_package_info(&index, "forgekit-json", "1.2.0") {
        InfoStep::Found(m) => assert_eq!(m.release_date, "2024-02-02"),
        InfoStep::AskRemote(_) => panic!("the local index knows the release"),
    }
    match client.get_package_info(&index, "owner/forgekit-json", "9.9.9") {
        InfoStep::Found(_) => panic!("the local index does not know the release"),
        InfoStep::AskRemote(url) => {
            assert_eq!(url, "https://api.github.com/repos/owner/json/releases/tags/v9.9.9")
        }
    }
}

#[test]
fn remote_release_becomes_metadata() {
    let release = ReleaseRecord {
        body: Some("Notes".to_string()),
        published_at: Some("2024-05-05T00:00:00Z".to_string()),
    };
    let m = remote_package_info("owner/tool", "1.0.0", Some(&release)).unwrap();
    assert_eq!(m.name, "owner/tool");
    assert_eq!(m.version, "1.0.0");
    assert_eq!(m.description, "Notes");
    assert_eq!(m.authors, vec!["owner".to_string()]);
    assert_eq!(m.repository, "https://github.com/owner/tool");
    assert_eq!(m.license, "MIT");
    assert_eq!(m.keywords, vec!["forgekit".to_string()]);
    assert_eq!(m.targets, vec!["ledokoz".to_string()]);
    assert_eq!(m.release_date, "2024-05-05T00:00:00Z");

    let bare = ReleaseRecord { body: None, published_at: None };
    let d = remote_package_info("tool", "1.0.0", Some(&bare)).unwrap();
    assert_eq!(d.description, "No description");
    assert_eq!(d.release_date, "");
    assert_eq!(d.authors, vec!["tool".to_string()]);

    let err = remote_package_info("tool", "1.0.0", None).unwrap_err();
    assert!(matches!(err, ForgeKitError::NotFound(_)));
    assert_eq!(err.kind(), ErrorKind::NotFound);
    assert_eq!(err.message(), "Not found: tool@1.0.0");
}

#[test]
fn remote_search_is_capped() {
    let records: Vec<RepoRecord> = (0..25)
        .map(|i| RepoRecord {
            name: Some(format!("repo{}", i)),
            full_name: Some(format!("owner{}/repo{}", i, i)),
            description: if i == 0 { None } else { Some(format!("about {}", i)) },
            html_url: Some(format!("https://github.com/owner{}/repo{}", i, i)),
        })
        .collect();
    let hits = search_github_packages(&records);
    assert_eq!(REMOTE_SEARCH_CAP, 20);
    assert_eq!(hits.len(), 20);
    assert_eq!(hits[19].name, "repo19");
    assert_eq!(hits[3].authors, vec!["owner3".to_string()]);
    assert_eq!(hits[3].version, "0.1.0");
    assert_eq!(hits[3].description, "about 3");
    assert_eq!(hits[0].description, "");
    assert_eq!(hits[3].repository, "https://github.com/owner3/repo3");
    assert!(hits[3].release_date.len() >= 20);
    assert_eq!(hits[3].keywords, vec!["forgekit".to_string()]);
    let stamped = repo_to_metadata(&records[3], "2024-06-06T00:00:00+00:00");
    assert_eq!(stamped.release_date, "2024-06-06T00:00:00+00:00");
    assert_eq!(stamped.name, "repo3");
    assert_eq!(stamped.targets, vec!["ledokoz".to_string()]);
    assert_eq!(stamped.license, "MIT");

    let nameless =
        vec![RepoRecord { name: None, full_name: None, description: None, html_url: None }];
    let one = search_github_packages(&nameless);
    assert_eq!(one.len(), 1);
    assert_eq!(one[0].name, "unknown");
    assert_eq!(one[0].authors, vec![String::new()]);
    assert_eq!(one[0].repository, "");
    assert!(search_github_packages(&vec![]).is_empty());
}

#[test]
fn download_uses_the_cached_archive() {
    let client = RegistryClient::new(config());
    assert_eq!(client.archive_name("forgekit-json", "1.2.0"), "forgekit-json-1.2.0.tar.gz");
    match client.download_package("forgekit-json", "1.2.0", true) {
        DownloadStep::Cached(file) => assert_eq!(file, "forgekit-json-1.2.0.tar.gz"),
        DownloadStep::Resolve => panic!("the archive is cached"),
    }
    assert!(matches!(
        client.download_package("owner/forgekit-json", "1.2.0", false),
        DownloadStep::Resolve
    ));
}

#[test]
fn fetch_follows_the_resolved_metadata() {
    let client = RegistryClient::new(config());
    let index = sample_index();
    let local = match client.get_package_info(&index, "forgekit-json", "1.2.0") {
        InfoStep::Found(m) => m,
        InfoStep::AskRemote(_) => panic!("the local index knows the release"),
    };
    let plan = client.fetch_plan(&local);
    assert_eq!(plan.file_name, "forgekit-json-1.2.0.tar.gz");
    assert_eq!(plan.url, "https://github.com/json/archive/refs/tags/v1.2.0.tar.gz");

    let release = ReleaseRecord { body: None, published_at: None };
    let remote = remote_package_info("owner/forgekit-json", "1.2.0", Some(&release)).unwrap();
    let plan = client.fetch_plan(&remote);
    assert_eq!(plan.file_name, "owner/forgekit-json-1.2.0.tar.gz");
    assert_eq!(plan.url, "https://github.com/owner/json/archive/refs/tags/v1.2.0.tar.gz");
}

#[test]
fn update_index_files_the_package_list() {
    let client = RegistryClient::new(config());
    let mut index = sample_index();
    client.update_index(&mut index);
    assert_eq!(
        client.list_packages(&index),
        vec![
            "forgekit-serde".to_string(),
            "forgekit-tokio".to_string(),
            "forgekit-http".to_string(),
            "forgekit-gui".to_string()
        ]
    );
    let serde = index.get("forgekit-serde", "0.1.0", "b").unwrap();
    assert!(!serde.release_date.is_empty());
    assert!(index.get("forgekit-json", "1.2.0", "b").is_none());

    let snapshot = seed_snapshot("2024-01-01T00:00:00+00:00");
    assert_eq!(snapshot.len(), 4);
    assert_eq!(snapshot[2].name, "forgekit-http");
    assert_eq!(snapshot[2].latest, "0.1.0");
    assert_eq!(snapshot[2].versions.len(), 1);
    assert_eq!(snapshot[2].versions[0].version, "0.1.0");
    assert_eq!(snapshot[2].versions[0].git_ref, "v0.1.0");
    assert_eq!(
        snapshot[2].versions[0].archive_url,
        "https://github.com/ledokoz-tech/forgekit-http/archive/v0.1.0.tar.gz"
    );
    assert_eq!(snapshot[2].versions[0].published, "2024-01-01T00:00:00+00:00");
    assert_eq!(snapshot[2].versions[0].checksum, "");
}

#[test]
fn client_settings() {
    let mut with_token = config();
    with_token.github_token = Some("SECRET-REDACTED".to_string());
    let client = RegistryClient::new(with_token);
    assert_eq!(client.authorization(), Some("Bearer SECRET-REDACTED".to_string()));
    assert_eq!(client.cache_dir(), "cache");
    assert_eq!(client.index_dir(), "index");
    assert_eq!(RegistryClient::new(config()).authorization(), None);
}

#[test]
fn first_path_segment() {
    assert_eq!(head_before_slash("owner/repo/x"), "owner");
    assert_eq!(head_before_slash("plain"), "plain");
    assert_eq!(head_before_slash("/lead"), "");
    assert_eq!(head_before_slash(""), "");
}

#[test]
fn entries_find_their_releases() {
    let e = entry("p", vec![info("1", "first"), info("2", "x"), info("1", "second")], "1");
    assert_eq!(e.find_version("1").unwrap().published, "first");
    assert!(e.find_version("3").is_none());
    assert!(e.answers("p"));
    assert!(e.answers("2"));
    assert!(!e.answers("q"));
    assert_eq!(e.latest_metadata("b").release_date, "first");
}

#[test]
fn resolver_matches_the_exact_version_text() {
    let short = entry("json", vec![info("1.2", "a")], "1.2");
    let err = DependencyResolver::resolve(&short, "1.2.0").unwrap_err();
    assert_eq!(err.kind(), ErrorKind::NotFound);
    assert_eq!(err.message(), "Not found: Version 1.2.0 not found for package json");

    let long = entry("json", vec![info("1.2", "a"), info("1.2.0", "b")], "1.2.0");
    let found = DependencyResolver::resolve(&long, "1.2.0").unwrap();
    assert_eq!(found.version, "1.2.0");
    assert_eq!(found.published, "b");
    assert_eq!(found.git_ref, "v1.2.0");
    assert_eq!(DependencyResolver::resolve(&long, "1.2").unwrap().published, "a");
    assert!(DependencyResolver::resolve(&long, "~1.2").is_err());
    assert!(DependencyResolver::resolve(&long, "").is_err());
}
