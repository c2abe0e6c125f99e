use forgekit_core::audit::{DependencyAuditor, Severity, SeveritySummary};
use forgekit_core::dev_server::{DevServer, DevServerConfig};
use forgekit_core::error::{ErrorKind, ForgeKitError};
use forgekit_core::i18n::{I18nManager, Language};
use forgekit_core::multi_target::{BuildTarget, MultiTargetBuilder};
use forgekit_core::templates::TemplateType;
use forgekit_core::testing::TestReport;
use forgekit_core::validator::{PathKind, ProjectValidator, ValidationReport};
use forgekit_core::version_manager::{BumpType, VersionManager};
use forgekit_core::ForgeKit;

#[test]
fn test_dev_server_config() {
    let config = DevServerConfig::default();
    assert_eq!(config.port, 8080);
    assert!(!config.watch_patterns.is_empty());
}

#[test]
fn test_dev_server_creation() {
    let config = DevServerConfig::default();
    let _server = DevServer::new(config);
}

#[test]
fn dev_server_keeps_its_settings() {
    let server = DevServer::new(DevServerConfig { port: 9000, watch_patterns: vec![] });
    assert_eq!(server.config().port, 9000);
    assert_eq!(
        DevServerConfig::default().watch_patterns,
        vec!["src/**/*.rs".to_string(), "assets/**/*".to_string()]
    );
}

#[test]
fn test_i18n_manager_creation() {
    let manager = I18nManager::new();
    assert_eq!(manager.language_count(), 0);
}

#[test]
fn translations_are_found_by_language_and_key() {
    let mut manager = I18nManager::load_translations(true);
    assert_eq!(manager.get_translation("de", "hello"), None);
    manager.add_language(Language {
        code: "de".to_string(),
        messages: vec![
            ("hello".to_string(), "Hallo".to_string()),
            ("bye".to_string(), "Tschüss".to_string()),
        ],
    });
    manager.add_language(Language {
        code: "fr".to_string(),
        messages: vec![("hello".to_string(), "Bonjour".to_string())],
    });
    assert_eq!(manager.get_translation("de", "bye"), Some("Tschüss"));
    assert_eq!(manager.get_translation("fr", "hello"), Some("Bonjour"));
    assert_eq!(manager.get_translation("fr", "bye"), None);
    assert_eq!(manager.get_translation("it", "hello"), None);
    assert_eq!(I18nManager::default().language_count(), 0);
}

#[test]
fn test_build_target_creation() {
    let target = BuildTarget {
        name: "x86_64".to_string(),
        triple: "x86_64-unknown-linux-gnu".to_string(),
    };
    assert_eq!(target.name, "x86_64");
}

#[test]
fn test_multi_target_builder() {
    let targets = vec![
        BuildTarget { name: "x86_64".to_string(), triple: "x86_64-unknown-linux-gnu".to_string() },
        BuildTarget {
            name: "aarch64".to_string(),
            triple: "aarch64-unknown-linux-gnu".to_string(),
        },
    ];
    let builder = MultiTargetBuilder::new(targets);
    assert_eq!(builder.target_count(), 2);
}

#[test]
fn builds_need_a_manifest() {
    let builder = MultiTargetBuilder::new(vec![BuildTarget {
        name: "x86_64".to_string(),
        triple: "x86_64-unknown-linux-gnu".to_string(),
    }]);
    let outputs = builder.build_all(true).unwrap();
    assert_eq!(outputs.len(), 1);
    assert_eq!(outputs[0].target, "x86_64");
    assert_eq!(outputs[0].output_path, "target/x86_64/release");
    assert!(outputs[0].success);
    let err = builder.build_all(false).unwrap_err();
    assert!(matches!(err, ForgeKitError::ProjectNotFound(_)));
    assert_eq!(err.message(), "Project not found at path: Cargo.toml not found");
    assert!(MultiTargetBuilder::new(vec![]).build_all(false).unwrap().is_empty());
}

#[test]
fn test_test_report_creation() {
    let report = TestReport::new();
    assert_eq!(report.total, 0);
    assert_eq!(report.passed, 0);
    assert_eq!(report.failed, 0);
    assert!(report.all_passed());
}

#[test]
fn test_test_report_all_passed() {
    let mut report = TestReport::new();
    report.total = 5;
    report.passed = 5;
    report.failed = 0;
    assert!(report.all_passed());
}

#[test]
fn test_test_report_not_all_passed() {
    let mut report = TestReport::new();
    report.total = 5;
    report.passed = 4;
    report.failed = 1;
    assert!(!report.all_passed());
}

#[test]
fn test_bump_type() {
    let _major = BumpType::Major;
    let _minor = BumpType::Minor;
    let _patch = BumpType::Patch;
}

#[test]
fn bumps_and_changelog() {
    assert_eq!(VersionManager::bump_version(true, BumpType::Major).unwrap(), "1.0.0");
    assert_eq!(VersionManager::bump_version(true, BumpType::Minor).unwrap(), "0.1.0");
    assert_eq!(VersionManager::bump_version(true, BumpType::Patch).unwrap(), "0.0.1");
    assert_eq!(
        VersionManager::bump_version(false, BumpType::Patch).unwrap_err().kind(),
        ErrorKind::NotFound
    );
    assert_eq!(
        VersionManager::generate_changelog(true).unwrap(),
        "# Changelog\n\n## [Unreleased]\n"
    );
    assert!(VersionManager::generate_changelog(false).is_err());
}

#[test]
fn test_validation_report_creation() {
    let mut report = ValidationReport::new();
    assert!(report.is_valid);
    assert!(report.errors.is_empty());
    assert!(report.warnings.is_empty());

    report.add_error("Test error".to_string());
    assert!(!report.is_valid);
    assert_eq!(report.errors.len(), 1);

    report.add_warning("Test warning".to_string());
    assert_eq!(report.warnings.len(), 1);
}

#[test]
fn test_validate_project_missing_directories() {
    let mut report = ValidationReport::new();
    ProjectValidator::validate_structure(PathKind::Missing, PathKind::Missing, &mut report)
        .unwrap();
    assert!(report.is_valid);
    assert!(report.warnings.iter().any(|w| w.contains("src")));
    assert_eq!(
        report.warnings,
        vec![
            "Recommended directory 'src' not found".to_string(),
            "Recommended directory 'assets' not found".to_string()
        ]
    );
}

#[test]
fn test_validate_project_valid() {
    let mut report = ValidationReport::default();
    ProjectValidator::validate_structure(PathKind::Directory, PathKind::Directory, &mut report)
        .unwrap();
    assert!(ProjectValidator::validate_config_only("test-project", "0.1.0").is_ok());
    assert!(report.is_valid);
    assert!(report.errors.is_empty());
}

#[test]
fn a_file_in_place_of_a_directory_is_an_error() {
    let mut report = ValidationReport::new();
    ProjectValidator::validate_structure(PathKind::Directory, PathKind::Other, &mut report)
        .unwrap();
    assert!(!report.is_valid);
    assert_eq!(report.errors, vec!["'assets' exists but is not a directory".to_string()]);
    assert!(report.warnings.is_empty());
}

#[test]
fn required_manifest_fields() {
    let no_name = ProjectValidator::validate_config_only("", "").unwrap_err();
    assert_eq!(no_name.message(), "Invalid project configuration: Project name is required");
    let no_version = ProjectValidator::validate_config_only("app", "").unwrap_err();
    assert_eq!(
        no_version.message(),
        "Invalid project configuration: Project version is required"
    );
}

#[test]
fn test_audit_no_cargo_toml() {
    let result = DependencyAuditor::audit_dependencies(false);
    assert!(result.is_err());
}

#[test]
fn test_audit_with_cargo_toml() {
    let report = DependencyAuditor::audit_dependencies(true).unwrap();
    assert!(report.vulnerabilities.is_empty());
    assert_eq!(
        report.severity_summary,
        SeveritySummary { critical: 0, high: 0, medium: 0, low: 0 }
    );
    assert!(DependencyAuditor::check_for_updates(true).unwrap().is_empty());
    assert!(DependencyAuditor::check_for_updates(false).is_err());
    assert_ne!(Severity::Low, Severity::Critical);
}

#[test]
fn template_names() {
    assert_eq!(TemplateType::Basic.as_str(), "basic");
    assert_eq!(TemplateType::Gui.as_str(), "gui");
    assert_eq!(TemplateType::Cli.as_str(), "cli");
    assert_eq!(TemplateType::Service.as_str(), "service");
    assert_eq!(TemplateType::Plugin.as_str(), "plugin");
}

#[test]
fn error_kinds_and_messages() {
    let cases = vec![
        (ForgeKitError::Io("x".to_string()), ErrorKind::IoFailure, "IO error: x"),
        (ForgeKitError::Json("x".to_string()), ErrorKind::InvalidData, "JSON error: x"),
        (ForgeKitError::Toml("x".to_string()), ErrorKind::InvalidData, "TOML error: x"),
        (
            ForgeKitError::ProjectExists("p".to_string()),
            ErrorKind::Conflict,
            "Project already exists at path: p",
        ),
        (
            ForgeKitError::ProjectNotFound("p".to_string()),
            ErrorKind::NotFound,
            "Project not found at path: p",
        ),
        (
            ForgeKitError::InvalidConfig("c".to_string()),
            ErrorKind::InvalidData,
            "Invalid project configuration: c",
        ),
        (ForgeKitError::BuildFailed("b".to_string()), ErrorKind::Tooling, "Build failed: b"),
        (
            ForgeKitError::PackagingFailed("b".to_string()),
            ErrorKind::ArchiveFailure,
            "Packaging failed: b",
        ),
        (ForgeKitError::TemplateError("t".to_string()), ErrorKind::Tooling, "Template error: t"),
        (ForgeKitError::Zip("z".to_string()), ErrorKind::ArchiveFailure, "ZIP error: z"),
        (
            ForgeKitError::TomlSerialization("s".to_string()),
            ErrorKind::InvalidData,
            "TOML serialization error: s",
        ),
        (ForgeKitError::NotFound("n".to_string()), ErrorKind::NotFound, "Not found: n"),
        (ForgeKitError::Conflict("c".to_string()), ErrorKind::Conflict, "Conflict: c"),
        (ForgeKitError::Network("n".to_string()), ErrorKind::NetworkFailure, "Network error: n"),
    ];
    for (error, kind, message) in cases {
        assert_eq!(error.kind(), kind);
        assert_eq!(error.message(), message);
    }
}

#[test]
fn forgekit_can_be_made() {
    assert_eq!(ForgeKit::new(), ForgeKit::default());
}
