use forgekit_core::env_manager::EnvManager;
use forgekit_core::error::{ErrorKind, ForgeKitError};

#[test]
fn test_env_manager_creation() {
    let manager = EnvManager::new();
    assert!(manager.all().is_empty());
}

#[test]
fn env_manager_test_set_and_get() {
    let mut manager = EnvManager::new();
    manager.set("KEY".to_string(), "value".to_string());
    assert_eq!(manager.get("KEY"), Some("value"));
}

#[test]
fn test_load_from_file() {
    let mut manager = EnvManager::new();
    manager
        .parse_env_content("KEY1=value1\nKEY2=value2\n# Comment\nKEY3=\"quoted value\"")
        .unwrap();
    assert_eq!(manager.get("KEY1"), Some("value1"));
    assert_eq!(manager.get("KEY2"), Some("value2"));
    assert_eq!(manager.get("KEY3"), Some("quoted value"));
}

#[test]
fn test_load_for_environment() {
    let mut manager = EnvManager::new();
    manager.parse_env_content("BASE_VAR=base_value").unwrap();
    manager.parse_env_content("DEV_VAR=dev_value").unwrap();
    assert_eq!(manager.get("BASE_VAR"), Some("base_value"));
    assert_eq!(manager.get("DEV_VAR"), Some("dev_value"));
}

#[test]
fn test_interpolate_braces() {
    let mut manager = EnvManager::new();
    manager.set("NAME".to_string(), "World".to_string());
    let result = manager.interpolate("Hello ${NAME}").unwrap();
    assert_eq!(result, "Hello World");
}

#[test]
fn test_interpolate_dollar() {
    let mut manager = EnvManager::new();
    manager.set("NAME".to_string(), "World".to_string());
    let result = manager.interpolate("Hello $NAME").unwrap();
    assert_eq!(result, "Hello World");
}

#[test]
fn test_validate_required() {
    let mut manager = EnvManager::new();
    manager.set("KEY1".to_string(), "value1".to_string());

    assert!(manager.validate_required(&["KEY1"]).is_ok());
    assert!(manager.validate_required(&["KEY1", "KEY2"]).is_err());
}

#[test]
fn test_save_to_file() {
    let mut manager = EnvManager::new();
    manager.set("KEY1".to_string(), "value1".to_string());
    manager.set("KEY2".to_string(), "value2".to_string());

    let content = manager.render();
    assert_eq!(content, "KEY1=value1\nKEY2=value2\n");

    let mut loaded = EnvManager::new();
    loaded.parse_env_content(&content).unwrap();
    assert_eq!(loaded.get("KEY1"), Some("value1"));
    assert_eq!(loaded.get("KEY2"), Some("value2"));
}

#[test]
fn test_contains() {
    let mut manager = EnvManager::new();
    manager.set("KEY".to_string(), "value".to_string());
    assert!(manager.contains("KEY"));
    assert!(!manager.contains("MISSING"));
}

#[test]
fn test_get_or() {
    let manager = EnvManager::new();
    assert_eq!(manager.get_or("MISSING", "default"), "default");
}

#[test]
fn get_or_prefers_the_set_value() {
    let mut manager = EnvManager::default();
    manager.set("PORT".to_string(), "8080".to_string());
    manager.set("PORT".to_string(), "9090".to_string());
    assert_eq!(manager.get_or("PORT", "80"), "9090");
    assert_eq!(manager.all().len(), 1);
}

#[test]
fn missing_variables_are_named_in_order() {
    let mut manager = EnvManager::new();
    manager.set("B".to_string(), "1".to_string());
    let err = manager.validate_required(&["A", "B", "C", "D"]).unwrap_err();
    assert!(matches!(err, ForgeKitError::InvalidConfig(_)));
    assert_eq!(err.kind(), ErrorKind::InvalidData);
    assert_eq!(
        err.message(),
        "Invalid project configuration: Missing required environment variables: A, C, D"
    );
    let single = manager.validate_required(&["Z"]).unwrap_err();
    assert_eq!(
        single.message(),
        "Invalid project configuration: Missing required environment variables: Z"
    );
    assert!(manager.validate_required(&[]).is_ok());
}

#[test]
fn parsing_trims_skips_and_unquotes() {
    let mut manager = EnvManager::new();
    manager
        .parse_env_content(
            "  # note\n\n  A = 1  \r\nB='two words'\nnot a pair\nC=x=y\nD=\"\nE=\"\"\nF='mixed\"\n=empty\nA=2",
        )
        .unwrap();
    assert_eq!(manager.get("A"), Some("2"));
    assert_eq!(manager.get("B"), Some("two words"));
    assert_eq!(manager.get("C"), Some("x=y"));
    assert_eq!(manager.get("D"), Some("\""));
    assert_eq!(manager.get("E"), Some(""));
    assert_eq!(manager.get("F"), Some("'mixed\""));
    assert_eq!(manager.get(""), Some("empty"));
    assert!(!manager.contains("not a pair"));
    let names: Vec<&str> = manager.all().iter().map(|b| b.0.as_str()).collect();
    assert_eq!(names, vec!["A", "B", "C", "D", "E", "F", ""]);
}

#[test]
fn interpolation_respects_name_boundaries() {
    let mut manager = EnvManager::new();
    manager.set("NAME".to_string(), "World".to_string());
    manager.set("N".to_string(), "n".to_string());
    assert_eq!(manager.interpolate("$NAMES $NAME-$N.$N_ $ $$N").unwrap(), "$NAMES World-n.$N_ $ $n");
    assert_eq!(manager.interpolate("${NAME}${N}${MISSING}").unwrap(), "Worldn${MISSING}");
    assert_eq!(manager.interpolate("no references").unwrap(), "no references");
    assert_eq!(manager.interpolate("").unwrap(), "");
}

#[test]
fn interpolation_goes_variable_by_variable() {
    let mut manager = EnvManager::new();
    manager.set("A".to_string(), "${B}".to_string());
    manager.set("B".to_string(), "b".to_string());
    assert_eq!(manager.interpolate("${A}").unwrap(), "b");
    let mut other = EnvManager::new();
    other.set("B".to_string(), "b".to_string());
    other.set("A".to_string(), "${B}".to_string());
    assert_eq!(other.interpolate("${A}").unwrap(), "${B}");
}
