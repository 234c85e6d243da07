use mathcore::kernel::error::{ErrorKind, MathCoreError, ResourceType};
use mathcore::kernel::runtime::{
    Kernel, KernelConfig, KernelState, PluginMetadata, PluginState, ResourceQuota, ResourceUsage,
};

fn meta(id: &str, version: &str) -> PluginMetadata {
    PluginMetadata { id: id.into(), version: version.into(), name: "Plugin".into(), description: None }
}

#[test]
fn test_error_display() {
    let err = MathCoreError::new(ErrorKind::BusTopicNotFound("test".into()));
    assert_eq!(err.to_string(), "Topic not found: test");
}

#[test]
fn error_display_of_resource_limits() {
    let err = MathCoreError::new(ErrorKind::SandboxResourceLimitExceeded(ResourceType::Memory));
    assert_eq!(err.to_string(), "Resource limit exceeded: Memory");
    let err = MathCoreError::new(ErrorKind::SandboxProcessCrashed(-11));
    assert_eq!(err.to_string(), "Process crashed: -11");
    assert_eq!(ResourceType::FileDescriptor.to_string(), "file_descriptor");
}

#[test]
fn test_resource_quota_exceeded() {
    let quota = ResourceQuota { max_memory: 100, max_cpu_time: 50, max_executions: 10 };

    let usage_exceeded = ResourceUsage { memory_used: 150, cpu_time_used: 30, executions: 5 };
    assert_eq!(quota.is_exceeded(&usage_exceeded), Some(ResourceType::Memory));

    let cpu_exceeded = ResourceUsage { memory_used: 50, cpu_time_used: 100, executions: 5 };
    assert_eq!(quota.is_exceeded(&cpu_exceeded), Some(ResourceType::Cpu));

    let within_quota = ResourceUsage { memory_used: 50, cpu_time_used: 30, executions: 5 };
    assert_eq!(quota.is_exceeded(&within_quota), None);
}

#[test]
fn test_kernel_config_default() {
    let config = KernelConfig::default();
    assert_eq!(config.max_plugin_memory, 256 * 1024 * 1024);
    assert_eq!(config.max_execution_time, 30_000);
    assert_eq!(config.max_plugins, 64);
    assert!(config.sandbox_enabled);
}

#[test]
fn test_plugin_metadata() {
    let meta = PluginMetadata {
        id: "test".into(),
        version: "1.0.0".into(),
        name: "Test".into(),
        description: Some("Test plugin".into()),
    };
    assert_eq!(meta.id, "test");
    assert_eq!(meta.version, "1.0.0");
}

#[test]
fn test_plugin_states() {
    assert_eq!(PluginState::Loading, PluginState::Loading);
    assert_eq!(PluginState::Loaded, PluginState::Loaded);
    assert_eq!(PluginState::Running, PluginState::Running);
    assert_eq!(PluginState::Stopped, PluginState::Stopped);
    assert_eq!(PluginState::Failed, PluginState::Failed);
}

#[test]
fn test_kernel_states() {
    assert_eq!(KernelState::Created, KernelState::Created);
    assert_eq!(KernelState::Running, KernelState::Running);
    assert_eq!(KernelState::ShuttingDown, KernelState::ShuttingDown);
    assert_eq!(KernelState::Stopped, KernelState::Stopped);
}

#[test]
fn kernel_init_once() {
    let mut kernel = Kernel::new();
    assert!(kernel.init().is_ok());
    assert_eq!(kernel.state(), KernelState::Created);
    let again = kernel.init().unwrap_err();
    assert_eq!(again.to_string(), "Invalid state: Kernel already initialized");
}

#[test]
fn plugin_load_get_list_unload() {
    let mut kernel = Kernel::new();
    kernel.init().unwrap();
    let m = PluginMetadata {
        id: "get_test".into(),
        version: "2.0.0".into(),
        name: "Get Test".into(),
        description: Some("Test get_plugin".into()),
    };
    kernel.load_plugin(m, false).unwrap();
    let plugin = kernel.get_plugin("get_test").unwrap();
    assert_eq!(plugin.metadata.version, "2.0.0");
    assert_eq!(plugin.state, PluginState::Loaded);
    assert!(plugin.sandbox.is_some());
    assert!(kernel.get_plugin("nonexistent").is_none());
    assert_eq!(kernel.list_plugins().len(), 1);
    assert_eq!(kernel.get_resource_quota("get_test").unwrap().max_executions, u64::MAX);
    kernel.unload_plugin("get_test").unwrap();
    assert_eq!(kernel.list_plugins().len(), 0);
    assert!(kernel.get_resource_quota("get_test").is_none());
}

#[test]
fn plugin_errors() {
    let config = KernelConfig { max_plugins: 2, sandbox_enabled: false, ..KernelConfig::default() };
    let mut kernel = Kernel::with_config(config);
    kernel.load_plugin(meta("p1", "1"), false).unwrap();
    assert!(kernel.get_plugin("p1").unwrap().sandbox.is_none());
    let dup = kernel.load_plugin(meta("p1", "1"), false).unwrap_err();
    assert_eq!(dup.to_string(), "Plugin already loaded: p1");
    kernel.load_plugin(meta("p2", "1"), true).unwrap();
    let full = kernel.load_plugin(meta("p3", "1"), false).unwrap_err();
    assert_eq!(full.to_string(), "Resource quota exceeded: Maximum plugins reached");
    let missing = kernel.unload_plugin("nonexistent").unwrap_err();
    assert_eq!(missing.to_string(), "Plugin not found: nonexistent");
    assert!(kernel.set_resource_quota("nonexistent", ResourceQuota::default()).is_err());
    assert_eq!(kernel.stats().plugins_loaded, 2);
}

#[test]
fn resource_quota_replaced() {
    let mut kernel = Kernel::new();
    kernel.load_plugin(meta("quota_test", "1.0.0"), false).unwrap();
    let quota = ResourceQuota { max_memory: 100 * 1024 * 1024, max_cpu_time: 30_000, max_executions: 500 };
    kernel.set_resource_quota("quota_test", quota).unwrap();
    let retrieved = kernel.get_resource_quota("quota_test").unwrap();
    assert_eq!(retrieved.max_memory, 100 * 1024 * 1024);
}

#[test]
fn kernel_lifecycle() {
    let mut kernel = Kernel::new();
    assert!(kernel.begin_shutdown().is_err());
    kernel.begin_run().unwrap();
    assert_eq!(kernel.state(), KernelState::Running);
    assert_eq!(kernel.begin_run().unwrap_err().to_string(), "Core already running");
    kernel.process_tick();
    kernel.process_tick();
    assert_eq!(kernel.stats().uptime_seconds, 2);
    kernel.load_plugin(meta("a", "1"), false).unwrap();
    kernel.begin_shutdown().unwrap();
    assert_eq!(kernel.state(), KernelState::ShuttingDown);
    let late = kernel.load_plugin(meta("b", "1"), false).unwrap_err();
    assert_eq!(late.to_string(), "Invalid state: Cannot load plugin in current state");
    kernel.finish_shutdown().unwrap();
    kernel.end_run();
    assert_eq!(kernel.state(), KernelState::Stopped);
    assert_eq!(kernel.stats().plugins_loaded, 0);
    assert!(kernel.begin_run().is_ok());
}

#[test]
fn kernel_config_kept() {
    let config = KernelConfig { max_plugin_memory: 512 * 1024 * 1024, max_plugins: 32, ..KernelConfig::default() };
    let kernel = Kernel::with_config(config);
    assert_eq!(kernel.config().max_plugin_memory, 512 * 1024 * 1024);
    assert_eq!(kernel.config().max_plugins, 32);
    assert_eq!(kernel.stats().plugins_loaded, 0);
}

#[test]
fn test_kernel_init() {
    let mut kernel = Kernel::new();
    kernel.init().unwrap();
    assert_eq!(kernel.state(), KernelState::Created);
}

#[test]
fn test_kernel_init_twice() {
    let mut kernel = Kernel::new();
    kernel.init().unwrap();
    let result = kernel.init();
    assert!(result.is_err());
}

#[test]
fn test_kernel_with_config() {
    let config = KernelConfig {
        max_plugin_memory: 512 * 1024 * 1024,
        max_execution_time: 60_000,
        max_plugins: 32,
        sandbox_enabled: false,
        shutdown_timeout: std::time::Duration::from_secs(5),
        tick_interval: std::time::Duration::from_millis(50),
    };
    let mut kernel = Kernel::with_config(config.clone());
    kernel.init().unwrap();
    assert_eq!(kernel.config().max_plugin_memory, 512 * 1024 * 1024);
    assert_eq!(kernel.config().max_plugins, 32);
}

#[test]
fn test_plugin_load_unload() {
    let mut kernel = Kernel::new();
    kernel.init().unwrap();
    let metadata = PluginMetadata {
        id: "test_plugin".into(),
        version: "1.0.0".into(),
        name: "Test Plugin".into(),
        description: Some("A test plugin".into()),
    };
    kernel.load_plugin(metadata.clone(), false).unwrap();
    let plugins = kernel.list_plugins();
    assert_eq!(plugins.len(), 1);
    kernel.unload_plugin("test_plugin").unwrap();
    let plugins = kernel.list_plugins();
    assert_eq!(plugins.len(), 0);
}

#[test]
fn test_plugin_load_with_sandbox() {
    let mut kernel = Kernel::new();
    kernel.init().unwrap();
    let metadata = PluginMetadata {
        id: "sandboxed_plugin".into(),
        version: "1.0.0".into(),
        name: "Sandboxed Plugin".into(),
        description: None,
    };
    kernel.load_plugin(metadata.clone(), true).unwrap();
    let plugin = kernel.get_plugin("sandboxed_plugin");
    assert!(plugin.is_some());
    assert!(plugin.unwrap().sandbox.is_some());
}

#[test]
fn test_duplicate_plugin_load() {
    let mut kernel = Kernel::new();
    kernel.init().unwrap();
    let metadata = PluginMetadata {
        id: "duplicate_test".into(),
        version: "1.0.0".into(),
        name: "Duplicate Test".into(),
        description: None,
    };
    kernel.load_plugin(metadata.clone(), false).unwrap();
    let result = kernel.load_plugin(metadata.clone(), false);
    assert!(result.is_err());
}

#[test]
fn test_max_plugins_limit() {
    let config = KernelConfig { max_plugins: 2, ..Default::default() };
    let mut kernel = Kernel::with_config(config);
    kernel.init().unwrap();
    let metadata1 =
        PluginMetadata { id: "plugin1".into(), version: "1.0.0".into(), name: "Plugin 1".into(), description: None };
    let metadata2 =
        PluginMetadata { id: "plugin2".into(), version: "1.0.0".into(), name: "Plugin 2".into(), description: None };
    let metadata3 =
        PluginMetadata { id: "plugin3".into(), version: "1.0.0".into(), name: "Plugin 3".into(), description: None };
    kernel.load_plugin(metadata1, false).unwrap();
    kernel.load_plugin(metadata2, false).unwrap();
    let result = kernel.load_plugin(metadata3, false);
    assert!(result.is_err());
}

#[test]
fn test_unload_nonexistent_plugin() {
    let mut kernel = Kernel::new();
    kernel.init().unwrap();
    let result = kernel.unload_plugin("nonexistent");
    assert!(result.is_err());
}

#[test]
fn test_get_plugin() {
    let mut kernel = Kernel::new();
    kernel.init().unwrap();
    let metadata = PluginMetadata {
        id: "get_test".into(),
        version: "2.0.0".into(),
        name: "Get Test".into(),
        description: Some("Test get_plugin".into()),
    };
    kernel.load_plugin(metadata.clone(), false).unwrap();
    let plugin = kernel.get_plugin("get_test");
    assert!(plugin.is_some());
    assert_eq!(plugin.unwrap().metadata.version, "2.0.0");
    let nonexistent = kernel.get_plugin("nonexistent");
    assert!(nonexistent.is_none());
}

#[test]
fn test_set_resource_quota() {
    let mut kernel = Kernel::new();
    kernel.init().unwrap();
    let metadata =
        PluginMetadata { id: "quota_test".into(), version: "1.0.0".into(), name: "Quota Test".into(), description: None };
    kernel.load_plugin(metadata, false).unwrap();
    let quota = ResourceQuota { max_memory: 100 * 1024 * 1024, max_cpu_time: 30_000, max_executions: 500 };
    kernel.set_resource_quota("quota_test", quota).unwrap();
    let retrieved = kernel.get_resource_quota("quota_test");
    assert!(retrieved.is_some());
    assert_eq!(retrieved.unwrap().max_memory, 100 * 1024 * 1024);
}

#[test]
fn test_set_quota_nonexistent_plugin() {
    let mut kernel = Kernel::new();
    kernel.init().unwrap();
    let quota = ResourceQuota::default();
    let result = kernel.set_resource_quota("nonexistent", quota);
    assert!(result.is_err());
}

#[test]
fn test_kernel_stats() {
    let mut kernel = Kernel::new();
    kernel.init().unwrap();
    let stats = kernel.stats();
    assert_eq!(stats.plugins_loaded, 0);
}
