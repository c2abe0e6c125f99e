use forgekit_core::error::ForgeKitError;
use forgekit_core::plugin::{BuildContext, ExamplePlugin, PackageContext, Plugin, PluginManager};

struct TestPlugin;

impl Plugin for TestPlugin {
    fn name(&self) -> &str {
        "test-plugin"
    }

    fn version(&self) -> &str {
        "1.0.0"
    }
}

struct FailingPlugin;

impl Plugin for FailingPlugin {
    fn name(&self) -> &str {
        "failing"
    }

    fn version(&self) -> &str {
        "0.0.1"
    }

    fn on_pre_build(&self, context: &BuildContext) -> Result<(), ForgeKitError> {
        Err(ForgeKitError::BuildFailed(context.target.clone()))
    }

    fn on_package(&self, context: &PackageContext) -> Result<(), ForgeKitError> {
        Err(ForgeKitError::PackagingFailed(context.output_path.clone()))
    }
}

#[test]
fn test_plugin_manager_creation() {
    let manager = PluginManager::new();
    assert_eq!(manager.plugin_count(), 0);
}

#[test]
fn test_register_plugin() {
    let mut manager = PluginManager::new();
    manager.register(Box::new(TestPlugin));
    assert_eq!(manager.plugin_count(), 1);
}

#[test]
fn test_list_plugins() {
    let mut manager = PluginManager::new();
    manager.register(Box::new(TestPlugin));
    let plugins = manager.list_plugins();
    assert_eq!(plugins.len(), 1);
    assert_eq!(plugins[0].0, "test-plugin");
    assert_eq!(plugins[0].1, "1.0.0");
}

#[test]
fn test_pre_build_hook() {
    let manager = PluginManager::new();
    let context = BuildContext { project_path: "/test".to_string(), target: "debug".to_string() };
    assert!(manager.call_pre_build(&context).is_ok());
}

#[test]
fn hooks_stop_at_the_first_failure() {
    let mut manager = PluginManager::default();
    manager.register(Box::new(ExamplePlugin));
    manager.register(Box::new(FailingPlugin));
    manager.register(Box::new(TestPlugin));
    manager.register(Box::new(TestPlugin));
    assert_eq!(manager.plugin_count(), 4);
    assert_eq!(
        manager.list_plugins(),
        vec![
            ("example-plugin".to_string(), "0.1.0".to_string()),
            ("failing".to_string(), "0.0.1".to_string()),
            ("test-plugin".to_string(), "1.0.0".to_string()),
        ]
    );
    let build = BuildContext { project_path: "/p".to_string(), target: "debug".to_string() };
    let package = PackageContext { project_path: "/p".to_string(), output_path: "out".to_string() };
    assert!(matches!(manager.call_pre_build(&build), Err(ForgeKitError::BuildFailed(t)) if t == "debug"));
    assert!(manager.call_post_build(&build).is_ok());
    assert!(matches!(manager.call_package(&package), Err(ForgeKitError::PackagingFailed(o)) if o == "out"));
}
