use pheno_plugins::{AdapterPlugin, PluginConfig, PluginError, PluginRegistry, PluginResult};

struct MockVcsPlugin;

impl AdapterPlugin for MockVcsPlugin {
    fn name(&self) -> &str {
        "mock-vcs"
    }
    fn version(&self) -> &str {
        "0.1.0"
    }
    fn initialize(&self, _config: PluginConfig) -> PluginResult<()> {
        Ok(())
    }
}

struct MockStoragePlugin;

impl AdapterPlugin for MockStoragePlugin {
    fn name(&self) -> &str {
        "mock-storage"
    }
    fn version(&self) -> &str {
        "0.1.0"
    }
    fn initialize(&self, _config: PluginConfig) -> PluginResult<()> {
        Ok(())
    }
}

/// A plugin whose name and health are chosen by the test.
struct NamedPlugin {
    name: String,
    healthy: bool,
}

impl AdapterPlugin for NamedPlugin {
    fn name(&self) -> &str {
        &self.name
    }
    fn version(&self) -> &str {
        "1.0.0"
    }
    fn initialize(&self, _config: PluginConfig) -> PluginResult<()> {
        Ok(())
    }
    fn health_check(&self) -> PluginResult<()> {
        if self.healthy {
            Ok(())
        } else {
            Err(PluginError::Operation(format!("{} is unhealthy", self.name)))
        }
    }
}

fn named(name: &str, healthy: bool) -> NamedPlugin {
    NamedPlugin { name: name.to_string(), healthy }
}

type Registry = PluginRegistry<MockVcsPlugin, MockStoragePlugin>;

#[test]
fn test_registry_creation() {
    let registry = Registry::new();
    assert!(!registry.is_finalized());
    assert_eq!(registry.stats().vcs_count, 0);
}

#[test]
fn test_register_vcs_plugin() {
    let mut registry = Registry::new();
    let plugin = MockVcsPlugin;

    registry.register_vcs(plugin).unwrap();

    assert!(registry.vcs("mock-vcs").is_some());
    assert_eq!(registry.stats().vcs_count, 1);
}

#[test]
fn test_duplicate_registration() {
    let mut registry = Registry::new();
    let plugin = MockVcsPlugin;

    registry.register_vcs(plugin).unwrap();
    let result = registry.register_vcs(MockVcsPlugin);

    assert!(result.is_err());
}

#[test]
fn test_finalize_registry() {
    let mut registry = Registry::new();
    registry.register_vcs(MockVcsPlugin).unwrap();

    registry.finalize().unwrap();
    assert!(registry.is_finalized());

    let result = registry.register_vcs(MockVcsPlugin);
    assert!(result.is_err());
}

#[test]
fn test_storage_registration_and_lookup() {
    let mut registry = Registry::new();
    let plugin = MockStoragePlugin;

    registry.register_storage(plugin).unwrap();

    assert!(registry.storage("mock-storage").is_some());
    assert!(registry.storage_adapters().contains(&"mock-storage".to_string()));
    assert_eq!(registry.stats().storage_count, 1);
}

#[test]
fn test_storage_duplicate_registration() {
    let mut registry = Registry::new();
    let plugin = MockStoragePlugin;

    registry.register_storage(plugin).unwrap();
    let result = registry.register_storage(MockStoragePlugin);

    assert!(result.is_err());
}

#[test]
fn test_register_storage_after_finalize() {
    let mut registry = Registry::new();
    registry.register_vcs(MockVcsPlugin).unwrap();

    registry.finalize().unwrap();

    let result = registry.register_storage(MockStoragePlugin);
    assert!(result.is_err());
}

#[test]
fn test_vcs_adapters_empty() {
    let mut registry = Registry::new();
    assert_eq!(registry.vcs_adapters(), Vec::<String>::new());

    registry.register_vcs(MockVcsPlugin).unwrap();
    assert_eq!(registry.vcs_adapters(), vec!["mock-vcs".to_string()]);
}

#[test]
fn test_health_check_with_empty_registry() {
    let registry = Registry::new();
    let result = registry.health_check();
    assert!(result.is_ok());
}

#[test]
fn test_default_registry_equals_new() {
    let default_registry = Registry::default();
    let new_registry = Registry::new();

    assert!(!default_registry.is_finalized());
    assert!(!new_registry.is_finalized());
    assert_eq!(default_registry.stats().vcs_count, 0);
    assert_eq!(new_registry.stats().vcs_count, 0);
}

#[test]
fn registry_error_variants_and_messages() {
    let mut registry = Registry::new();
    registry.register_vcs(MockVcsPlugin).unwrap();
    match registry.register_vcs(MockVcsPlugin) {
        Err(PluginError::AlreadyRegistered(m)) => {
            assert_eq!(m, "VCS plugin 'mock-vcs' already registered")
        }
        other => panic!("expected AlreadyRegistered, got {:?}", other),
    }
    registry.register_storage(MockStoragePlugin).unwrap();
    match registry.register_storage(MockStoragePlugin) {
        Err(PluginError::AlreadyRegistered(m)) => {
            assert_eq!(m, "Storage plugin 'mock-storage' already registered")
        }
        other => panic!("expected AlreadyRegistered, got {:?}", other),
    }
    registry.finalize().unwrap();
    match registry.register_vcs(MockVcsPlugin) {
        Err(PluginError::Initialization(m)) => {
            assert_eq!(m, "Registry is finalized, cannot register new plugins")
        }
        other => panic!("expected Initialization, got {:?}", other),
    }
    let stats = registry.stats();
    assert_eq!(stats.vcs_count, 1);
    assert_eq!(stats.storage_count, 1);
    assert!(stats.finalized);
}

#[test]
fn registry_lookup_after_registration_finds_each_plugin() {
    let mut registry: PluginRegistry<NamedPlugin, NamedPlugin> = PluginRegistry::new();
    registry.register_vcs(named("git", true)).unwrap();
    registry.register_vcs(named("hg", true)).unwrap();
    registry.register_storage(named("git", true)).unwrap();
    assert_eq!(registry.vcs("git").map(|p| p.name.clone()), Some("git".to_string()));
    assert_eq!(registry.vcs("hg").map(|p| p.name.clone()), Some("hg".to_string()));
    assert!(registry.vcs("svn").is_none());
    assert!(registry.storage("hg").is_none());
    assert_eq!(registry.vcs_adapters(), vec!["git".to_string(), "hg".to_string()]);
    assert_eq!(registry.storage_adapters(), vec!["git".to_string()]);
}

#[test]
fn registry_finalize_is_idempotent_and_keeps_plugins() {
    let mut registry: PluginRegistry<NamedPlugin, NamedPlugin> = PluginRegistry::new();
    registry.register_vcs(named("git", true)).unwrap();
    registry.finalize().unwrap();
    registry.finalize().unwrap();
    assert!(registry.is_finalized());
    assert!(registry.vcs("git").is_some());
    assert!(registry.register_storage(named("sqlite", true)).is_err());
    assert_eq!(registry.storage_adapters(), Vec::<String>::new());
}

#[test]
fn registry_health_check_reports_first_failure() {
    let mut registry: PluginRegistry<NamedPlugin, NamedPlugin> = PluginRegistry::new();
    registry.register_vcs(named("a", true)).unwrap();
    registry.register_vcs(named("b", false)).unwrap();
    registry.register_storage(named("c", false)).unwrap();
    match registry.health_check() {
        Err(PluginError::Operation(m)) => assert_eq!(m, "b is unhealthy"),
        other => panic!("expected the VCS failure, got {:?}", other),
    }

    let mut healthy: PluginRegistry<NamedPlugin, NamedPlugin> = PluginRegistry::new();
    healthy.register_vcs(named("a", true)).unwrap();
    healthy.register_storage(named("s", true)).unwrap();
    assert!(healthy.health_check().is_ok());
}

#[test]
fn registry_finalization_is_permanent_along_a_sequence() {
    let mut registry: PluginRegistry<NamedPlugin, NamedPlugin> = PluginRegistry::new();
    assert!(!registry.is_finalized());
    registry.register_vcs(named("git", true)).unwrap();
    registry.register_storage(named("sqlite", true)).unwrap();
    assert!(registry.health_check().is_ok());
    assert!(!registry.is_finalized());
    registry.finalize().unwrap();
    for _ in 0..3 {
        match registry.register_vcs(named("hg", true)) {
            Err(PluginError::Initialization(m)) => {
                assert_eq!(m, "Registry is finalized, cannot register new plugins")
            }
            other => panic!("unexpected {:?}", other),
        }
        match registry.register_storage(named("pg", true)) {
            Err(PluginError::Initialization(m)) => {
                assert_eq!(m, "Registry is finalized, cannot register new plugins")
            }
            other => panic!("unexpected {:?}", other),
        }
        assert!(registry.is_finalized());
        let stats = registry.stats();
        assert_eq!((stats.vcs_count, stats.storage_count, stats.finalized), (1, 1, true));
    }
    assert_eq!(registry.vcs_adapters(), vec!["git".to_string()]);
    assert_eq!(registry.storage_adapters(), vec!["sqlite".to_string()]);
}
