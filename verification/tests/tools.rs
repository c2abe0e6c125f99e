use forgekit_core::analytics::AnalyticsCollector;
use forgekit_core::asset_optimizer::AssetOptimizer;
use forgekit_core::error::{ErrorKind, ForgeKitError};
use forgekit_core::packager::{asset_entry_name, package};
use forgekit_core::scaffold::{
    CICDGenerator, DockerBuilder, MigrationManager, MonitoringSetup, OpenAPIGenerator,
};
use forgekit_core::testing::TestRunner;
use forgekit_core::secrets::SecretsManager;
use forgekit_core::validator::{CargoCheck, ManifestCheck, PathKind, ProjectValidator};

#[test]
fn test_encrypt_decrypt() {
    let secret = "my-secret-value";
    let encrypted = SecretsManager::encrypt_secret(secret).unwrap();
    let decrypted = SecretsManager::decrypt_secret(&encrypted).unwrap();
    assert_eq!(decrypted, secret);
}

#[test]
fn stored_secrets_are_marked_base64() {
    assert_eq!(SecretsManager::encrypt_secret("hello").unwrap(), "encrypted:aGVsbG8=");
    assert_eq!(SecretsManager::encrypt_secret("").unwrap(), "encrypted:");
    assert_eq!(SecretsManager::decrypt_secret("encrypted:aGVsbG8gd29ybGQ=").unwrap(), "hello world");
    assert_eq!(SecretsManager::decrypt_secret("plain text").unwrap(), "plain text");
    assert_eq!(SecretsManager::decrypt_secret("encrypted:").unwrap(), "");

    let bad_base64 = SecretsManager::decrypt_secret("encrypted:***").unwrap_err();
    assert!(matches!(bad_base64, ForgeKitError::InvalidConfig(_)));
    assert_eq!(bad_base64.message(), "Invalid project configuration: Failed to decrypt secret");

    let bad_utf8 = SecretsManager::decrypt_secret("encrypted:/w==").unwrap_err();
    assert_eq!(
        bad_utf8.message(),
        "Invalid project configuration: Invalid UTF-8 in decrypted secret"
    );
    for secret in ["", "a", "ab", "abc", "grüß dich", "line\nfeed", "encrypted:nested"] {
        let stored = SecretsManager::encrypt_secret(secret).unwrap();
        assert_eq!(SecretsManager::decrypt_secret(&stored).unwrap(), secret);
    }
    assert_eq!(SecretsManager::secret_from_decoded(Some(vec![0x68, 0x69])).unwrap(), "hi");
    assert!(SecretsManager::secret_from_decoded(Some(vec![0xff])).is_err());
    assert!(SecretsManager::secret_from_decoded(None).is_err());
}

#[test]
fn test_validate_project_missing_config() {
    let report = ProjectValidator::validate_project(
        &ManifestCheck::Missing,
        PathKind::Missing,
        PathKind::Missing,
        &CargoCheck::Missing,
    )
    .unwrap();
    assert!(!report.is_valid);
    assert!(report.errors.iter().any(|e| e.contains("forgekit.toml")));
    assert_eq!(report.warnings.len(), 3);
    assert_eq!(
        report.warnings[2],
        "Cargo.toml not found - dependencies cannot be validated"
    );
}

#[test]
fn validation_reports_each_finding_in_order() {
    let report = ProjectValidator::validate_project(
        &ManifestCheck::Loaded { name: String::new(), version: String::new() },
        PathKind::Other,
        PathKind::Directory,
        &CargoCheck::Invalid("line 1".to_string()),
    )
    .unwrap();
    assert!(!report.is_valid);
    assert_eq!(
        report.errors,
        vec![
            "Project name is required in forgekit.toml".to_string(),
            "Project version is required in forgekit.toml".to_string(),
            "'src' exists but is not a directory".to_string(),
            "Invalid Cargo.toml: line 1".to_string(),
        ]
    );
    assert!(report.warnings.is_empty());

    let unreadable = ProjectValidator::validate_project(
        &ManifestCheck::Unreadable("bad key".to_string()),
        PathKind::Directory,
        PathKind::Directory,
        &CargoCheck::Valid,
    )
    .unwrap();
    assert_eq!(unreadable.errors, vec!["Invalid forgekit.toml: bad key".to_string()]);

    let fine = ProjectValidator::validate_project(
        &ManifestCheck::Loaded { name: "app".to_string(), version: "1".to_string() },
        PathKind::Directory,
        PathKind::Directory,
        &CargoCheck::Valid,
    )
    .unwrap();
    assert!(fine.is_valid && fine.errors.is_empty() && fine.warnings.is_empty());
}

#[test]
fn test_count_source_files() {
    let names = vec!["src".to_string(), "main.rs".to_string(), "lib.rs".to_string()];
    let count = ProjectValidator::count_source_files(&names).unwrap();
    assert_eq!(count, 2);
}

#[test]
fn test_count_source_files_no_src_dir() {
    let count = ProjectValidator::count_source_files(&vec![]).unwrap();
    assert_eq!(count, 0);
}

#[test]
fn only_the_extension_counts() {
    let names: Vec<String> =
        ["a.rs", ".rs", "rs", "b.rs.bak", "c..rs", "d.RS", "e.txt"].iter().map(|s| s.to_string()).collect();
    assert_eq!(ProjectValidator::count_source_files(&names).unwrap(), 2);
    for name in &names {
        let by_path = std::path::Path::new(name).extension().map(|e| e == "rs").unwrap_or(false);
        let single = ProjectValidator::count_source_files(&vec![name.clone()]).unwrap();
        assert_eq!(single == 1, by_path, "{}", name);
    }
}

#[test]
fn packages_need_a_built_project() {
    let missing = package("/p", false, false, "app", "target").unwrap_err();
    assert!(matches!(missing, ForgeKitError::ProjectNotFound(_)));
    assert_eq!(missing.message(), "Project not found at path: /p");
    let unbuilt = package("/p", true, false, "app", "target").unwrap_err();
    assert_eq!(unbuilt.kind(), ErrorKind::ArchiveFailure);
    assert_eq!(
        unbuilt.message(),
        "Packaging failed: Binary not found. Please build the project first."
    );
    let plan = package("/p", true, true, "app", "target").unwrap();
    assert_eq!(plan.output_dir, "target");
    assert_eq!(plan.package_file, "app.mox");
    assert_eq!(plan.binary_entry, "app.bin");
    assert_eq!(plan.manifest_entry, "forgekit.toml");
    assert_eq!(asset_entry_name("logo.png"), "assets/logo.png");
}

#[test]
fn test_generate_dockerfile_content_is_valid() {
    let content = DockerBuilder::generate_dockerfile();
    assert!(content.contains("FROM rust:latest"));
    assert!(content.contains("WORKDIR /app"));
    assert!(content.contains("COPY . ."));
    assert!(content.contains("RUN cargo build --release"));
    assert!(content.contains("CMD"));
}

#[test]
fn test_generate_compose_content_is_valid() {
    let content = DockerBuilder::generate_compose();
    assert!(content.contains("version:"));
    assert!(content.contains("services:"));
    assert!(content.contains("app:"));
    assert!(content.contains("build:"));
    assert!(content.contains("ports:"));
    assert!(content.contains("8080:8080"));
}

#[test]
fn test_build_image_requires_dockerfile() {
    match DockerBuilder::build_image(false) {
        Err(ForgeKitError::ProjectNotFound(msg)) => assert!(msg.contains("not found")),
        _ => panic!("Expected ProjectNotFound error"),
    }
}

#[test]
fn test_build_image_returns_image_name() {
    assert_eq!(DockerBuilder::build_image(true).unwrap(), "image:latest");
}

#[test]
fn test_generate_spec() {
    let spec = OpenAPIGenerator::generate_spec(true).unwrap();
    assert!(spec.contains("\"openapi\": \"3.0.0\""));
    assert!(OpenAPIGenerator::generate_spec(false).is_err());
    assert!(OpenAPIGenerator::generate_docs().contains("<h1>API Documentation</h1>"));
}

#[test]
fn pipeline_and_logging_files() {
    assert!(CICDGenerator::generate_github_actions().starts_with("name: Build and Test\n"));
    assert!(CICDGenerator::generate_gitlab_ci().starts_with("stages:\n  - build\n  - test\n"));
    assert!(CICDGenerator::generate_jenkins().starts_with("pipeline {\n    agent any\n"));
    assert_eq!(
        MonitoringSetup::generate_logging_config(),
        "[logging]\nlevel = \"info\"\nformat = \"json\"\n"
    );
}

#[test]
fn test_create_migration() {
    assert_eq!(
        MigrationManager::create_migration("20240101120000", "initial_schema"),
        "20240101120000_initial_schema.sql"
    );
    let report = MigrationManager::run_migrations().unwrap();
    assert!(report.applied.is_empty());
    assert_eq!(report.duration_secs, 0);
}

#[test]
fn test_generate_test_scaffold() {
    let (file, content) = TestRunner::generate_test_scaffold("example");
    assert_eq!(file, "example_test.rs");
    assert!(content.contains("test_example"));
    assert!(content.starts_with("//! Tests for example\n\n#[test]\nfn test_example() {\n"));
    assert!(content.contains("fn test_example_error_case() {"));
}

#[test]
fn cargo_toml_has_to_be_valid_toml() {
    assert!(matches!(ProjectValidator::check_cargo_toml(None), CargoCheck::Missing));
    assert!(matches!(
        ProjectValidator::check_cargo_toml(Some("[package]\nname = \"test\"")),
        CargoCheck::Valid
    ));
    assert!(matches!(ProjectValidator::check_cargo_toml(Some("")), CargoCheck::Valid));
    match ProjectValidator::check_cargo_toml(Some("[package\nname = ")) {
        CargoCheck::Invalid(reason) => assert!(!reason.is_empty()),
        other => panic!("unexpected finding {:?}", other),
    }
}

#[test]
fn test_minify_json() {
    assert_eq!(AssetOptimizer::minify_json("{ \"key\": \"value\" }"), "{\"key\":\"value\"}");
    assert_eq!(AssetOptimizer::minify_json("{\n  \"a b\": [1, 2]\n}\n"), "{\"ab\":[1,2]}");
    assert_eq!(AssetOptimizer::minify_json(""), "");
}

#[test]
fn images_are_kept_as_they_are() {
    assert_eq!(AssetOptimizer::compress_image("a/logo.png", true).unwrap(), "a/logo.png");
    let err = AssetOptimizer::compress_image("a/logo.png", false).unwrap_err();
    assert_eq!(err.message(), "Project not found at path: Image not found: a/logo.png");
}

#[test]
fn test_collect_metrics() {
    let sources = vec!["fn main() {}\n".to_string(), "a\nb\n\nc".to_string(), String::new()];
    assert_eq!(AnalyticsCollector::lines_of_code(&sources), Some(5));
    assert_eq!(AnalyticsCollector::lines_of_code(&vec![]), Some(0));
    for text in ["", "a", "a\n", "\n", "\n\n", "a\nb", "a\r\nb\r\n", "\na"] {
        assert_eq!(AnalyticsCollector::count_lines(text), text.lines().count(), "{:?}", text);
    }
}
