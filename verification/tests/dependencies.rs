use forgekit_core::config::{Dependency, ProjectConfig};
use forgekit_core::dependencies::{
    DependencyManager, DependencyRegistry, PackageInfo, PackageVersion,
};
use forgekit_core::error::{ErrorKind, ForgeKitError};

fn release(version: &str) -> PackageVersion {
    PackageVersion {
        version: version.to_string(),
        released: "2024-01-01".to_string(),
        compatible_targets: vec!["ledokoz".to_string()],
        download_url: format!("https://example.org/{}.tar.gz", version),
    }
}

fn package(name: &str, versions: &[&str]) -> PackageInfo {
    PackageInfo {
        name: name.to_string(),
        versions: versions.iter().map(|v| release(v)).collect(),
        description: format!("The {} library", name),
        keywords: vec!["tools".to_string(), name.to_uppercase()],
        repository: None,
    }
}

#[test]
fn exact_version_only() {
    let registry = DependencyRegistry::new();
    let only_short = package("json", &["1.2"]);
    let err = registry.resolve_version(&only_short, "1.2.0").unwrap_err();
    assert_eq!(err.kind(), ErrorKind::NotFound);
    assert!(matches!(err, ForgeKitError::NotFound(_)));
    assert_eq!(err.message(), "Not found: Version 1.2.0 not found for package json");

    let both = package("json", &["1.2", "1.2.0"]);
    let found = registry.resolve_version(&both, "1.2.0").unwrap();
    assert_eq!(found.version, "1.2.0");
    assert_eq!(found.download_url, "https://example.org/1.2.0.tar.gz");
    assert!(registry.resolve_version(&both, "1.2").is_ok());
    assert!(registry.resolve_version(&both, "^1.2").is_err());
}

#[test]
fn registry_finds_and_overwrites() {
    let mut registry = DependencyRegistry::new();
    assert!(registry.find_package("json").is_none());
    registry.add_package(package("json", &["1.0.0"]));
    registry.add_package(package("http", &["0.3.0"]));
    registry.add_package(package("json", &["2.0.0"]));
    let json = registry.find_package("json").unwrap();
    assert_eq!(json.versions.len(), 1);
    assert_eq!(json.versions[0].version, "2.0.0");
    assert!(registry.find_package("jso").is_none());
}

#[test]
fn registry_search_looks_at_name_description_keywords() {
    let mut registry = DependencyRegistry::new();
    registry.add_package(package("json", &["1.0.0"]));
    registry.add_package(package("http", &["0.3.0"]));
    let by_name: Vec<&str> =
        registry.search_packages("jso").iter().map(|p| p.name.as_str()).collect();
    assert_eq!(by_name, vec!["json"]);
    let by_description: Vec<&str> =
        registry.search_packages("library").iter().map(|p| p.name.as_str()).collect();
    assert_eq!(by_description, vec!["json", "http"]);
    let by_keyword: Vec<&str> =
        registry.search_packages("HTTP").iter().map(|p| p.name.as_str()).collect();
    assert_eq!(by_keyword, vec!["http"]);
    assert!(registry.search_packages("absent").is_empty());
}

#[test]
fn resolve_dependencies_in_order() {
    let mut registry = DependencyRegistry::new();
    registry.add_package(package("json", &["1.0.0", "1.1.0"]));
    registry.add_package(package("http", &["0.3.0"]));
    let wanted = vec![
        Dependency { name: "http".to_string(), version: "0.3.0".to_string(), source: None },
        Dependency { name: "json".to_string(), version: "1.1.0".to_string(), source: None },
    ];
    let resolved = registry.resolve_dependencies(&wanted).unwrap();
    assert_eq!(resolved.len(), 2);
    assert_eq!(resolved[0].name, "http");
    assert_eq!(resolved[1].version, "1.1.0");
    assert_eq!(resolved[1].download_url, "https://example.org/1.1.0.tar.gz");

    let unknown =
        vec![Dependency { name: "yaml".to_string(), version: "1".to_string(), source: None }];
    let err = registry.resolve_dependencies(&unknown).unwrap_err();
    assert_eq!(err.kind(), ErrorKind::NotFound);
    assert_eq!(err.message(), "Not found: Package not found: yaml");

    let wrong_version =
        vec![Dependency { name: "json".to_string(), version: "1".to_string(), source: None }];
    assert_eq!(registry.resolve_dependencies(&wrong_version).unwrap_err().kind(), ErrorKind::NotFound);
    assert!(registry.resolve_dependencies(&[]).unwrap().is_empty());
}

#[test]
fn duplicate_dependency_is_a_conflict() {
    let mut manager = DependencyManager::new();
    manager.add_to_registry(package("json", &["1.0.0", "2.0.0"]));
    let mut config = ProjectConfig::default();
    manager.add_dependency(&mut config, "json", "1.0.0").unwrap();
    assert_eq!(config.dependencies.len(), 1);
    assert_eq!(config.dependencies[0].source, None);

    let err = manager.add_dependency(&mut config, "json", "2.0.0").unwrap_err();
    assert_eq!(err.kind(), ErrorKind::Conflict);
    assert_eq!(err.message(), "Conflict: Dependency json already exists");
    assert_eq!(config.dependencies.len(), 1);
    assert_eq!(config.dependencies[0].version, "1.0.0");
}

#[test]
fn unknown_package_or_version_is_not_added() {
    let mut manager = DependencyManager::default();
    manager.add_to_registry(package("json", &["1.2"]));
    let mut config = ProjectConfig::default();
    assert_eq!(
        manager.add_dependency(&mut config, "yaml", "1.0.0").unwrap_err().kind(),
        ErrorKind::NotFound
    );
    assert_eq!(
        manager.add_dependency(&mut config, "json", "1.2.0").unwrap_err().kind(),
        ErrorKind::NotFound
    );
    assert!(config.dependencies.is_empty());
}

#[test]
fn removal_is_idempotent() {
    let mut manager = DependencyManager::new();
    manager.add_to_registry(package("json", &["1.0.0"]));
    manager.add_to_registry(package("http", &["0.3.0"]));
    let mut config = ProjectConfig::default();
    manager.add_dependency(&mut config, "json", "1.0.0").unwrap();
    manager.add_dependency(&mut config, "http", "0.3.0").unwrap();

    assert!(manager.remove_dependency(&mut config, "absent").is_ok());
    assert_eq!(config.dependencies.len(), 2);
    assert!(manager.remove_dependency(&mut config, "json").is_ok());
    assert_eq!(config.dependencies.len(), 1);
    assert_eq!(config.dependencies[0].name, "http");
    assert!(manager.remove_dependency(&mut config, "json").is_ok());
    assert_eq!(config.dependencies.len(), 1);
    assert_eq!(config.name, "unnamed");
}

#[test]
fn manager_lists_and_searches() {
    let mut manager = DependencyManager::new();
    assert!(manager.list_available_packages().is_empty());
    manager.add_to_registry(package("json", &["1.0.0"]));
    manager.add_to_registry(package("http", &["0.3.0"]));
    let names: Vec<&str> =
        manager.list_available_packages().iter().map(|p| p.name.as_str()).collect();
    assert_eq!(names, vec!["json", "http"]);
    assert_eq!(manager.search_packages("htt").len(), 1);
}

#[test]
fn manifest_defaults_and_edits() {
    let mut config = ProjectConfig::default();
    assert_eq!(config.version, "0.1.0");
    assert_eq!(config.build.target, "ledokoz");
    assert_eq!(config.build.opt_level, "2");
    assert_eq!(config.build.output_dir, "target");
    assert!(!config.has_dependency("json"));
    config.record_dependency("json", "1.0.0");
    assert_eq!(config.dependencies[0].source, Some("registry".to_string()));
    config.record_dependency("json", "1.1.0");
    assert_eq!(config.dependencies.len(), 1);
    assert_eq!(config.dependencies[0].version, "1.1.0");
    assert_eq!(config.position_of("json"), Some(0));
    assert!(config.declare_dependency("json", "3").is_err());
    assert!(config.declare_dependency("http", "3").is_ok());
    config.forget_dependency("json");
    assert_eq!(config.position_of("http"), Some(0));
}
