//! Registry lifecycle behavior: scanning, loading, unloading,
//! reloading and the call gate.

use plugin_manager::model::{PluginConfig, PluginMetadata, PluginStatus, PluginType, RuntimeError};
use plugin_manager::registry::{ModuleInitOutcome, PluginManager};

fn echo_metadata() -> PluginMetadata {
    PluginMetadata::new("echo", "0.1.0", "a", None, PluginType::RustLibrary)
}

#[test]
fn scan_registers_and_returns_ids() {
    let mut manager = PluginManager::new();
    let ids = manager.scan(vec![(echo_metadata(), "plugins/echo".to_string())]);
    assert_eq!(ids.len(), 1);
    assert_eq!(ids[0].as_str().len(), 24);
    let info = manager.get_plugin(&ids[0]).unwrap();
    assert_eq!(info.status, PluginStatus::Registered);
    assert_eq!(info.metadata.name, "echo");
}

#[test]
fn scan_of_nothing_registers_nothing() {
    let mut manager = PluginManager::new();
    let ids = manager.scan(Vec::new());
    assert!(ids.is_empty());
    assert!(manager.list_plugins().is_empty());
}

#[test]
fn rescan_overwrites_instead_of_duplicating() {
    let mut manager = PluginManager::new();
    let first = manager.scan(vec![(echo_metadata(), "plugins/echo".to_string())]);
    let second = manager.scan(vec![(echo_metadata(), "plugins/echo".to_string())]);
    assert_eq!(first[0].as_str(), second[0].as_str());
    assert_eq!(manager.list_plugins().len(), 1);
}

#[test]
fn default_config_is_derived_from_metadata() {
    let mut manager = PluginManager::new();
    let ids = manager.scan(vec![(echo_metadata(), "plugins/echo".to_string())]);
    let info = manager.get_plugin(&ids[0]).unwrap();
    assert_eq!(info.config.library_name, "echo");
    assert_eq!(info.config.entry_point, "create_plugin");
    assert_eq!(info.config.plugin_dir, "plugins/echo");
    assert!(info.config.frontend_url.is_none());
    assert!(info.config.dependencies.is_empty());
    assert!(info.config.parameters.is_empty());
}

#[test]
fn embedded_config_wins_over_defaults() {
    let mut manager = PluginManager::new();
    let mut meta = PluginMetadata::new("echo", "0.1.0", "a", None, PluginType::RustLibrary);
    meta.config = Some(PluginConfig {
        plugin_dir: "custom/dir".to_string(),
        library_name: "libecho_custom".to_string(),
        entry_point: "make_plugin".to_string(),
        frontend_url: Some("http://localhost:1234".to_string()),
        dependencies: vec!["base".to_string()],
        parameters: vec![("k".to_string(), "v".to_string())],
    });
    let ids = manager.scan(vec![(meta, "plugins/echo".to_string())]);
    let info = manager.get_plugin(&ids[0]).unwrap();
    assert_eq!(info.config.library_name, "libecho_custom");
    assert_eq!(info.config.entry_point, "make_plugin");
    assert_eq!(info.config.plugin_dir, "custom/dir");
    assert_eq!(info.config.frontend_url.as_deref(), Some("http://localhost:1234"));
    let plan = manager.load_path(&ids[0], "so").unwrap();
    assert_eq!(plan.library_path, "custom/dir/libecho_custom.so");
    assert_eq!(plan.entry_point, "make_plugin");
}

#[test]
fn load_path_names_library_and_entry() {
    let mut manager = PluginManager::new();
    let ids = manager.scan(vec![(echo_metadata(), "plugins/echo".to_string())]);
    let plan = manager.load_path(&ids[0], "so").unwrap();
    assert_eq!(plan.library_path, "plugins/echo/echo.so");
    assert_eq!(plan.entry_point, "create_plugin");
}

#[test]
fn load_of_unknown_id_is_not_found() {
    let mut manager = PluginManager::new();
    let bogus = plugin_manager::id::PluginId::from("nosuchid".to_string());
    assert!(matches!(manager.load_path(&bogus, "so"), Err(RuntimeError::NotFound)));
    assert!(matches!(
        manager.load_plugin(&bogus, ModuleInitOutcome::Initialized(true)),
        Err(RuntimeError::NotFound)
    ));
}

#[test]
fn successful_load_runs() {
    let mut manager = PluginManager::new();
    let ids = manager.scan(vec![(echo_metadata(), "plugins/echo".to_string())]);
    manager
        .load_plugin(&ids[0], ModuleInitOutcome::Initialized(true))
        .unwrap();
    let info = manager.get_plugin(&ids[0]).unwrap();
    assert_eq!(info.status, PluginStatus::Running);
    assert!(manager.prepare_call(&ids[0]).is_ok());
}

#[test]
fn load_while_running_is_invalid_state_and_changes_nothing() {
    let mut manager = PluginManager::new();
    let ids = manager.scan(vec![(echo_metadata(), "plugins/echo".to_string())]);
    manager
        .load_plugin(&ids[0], ModuleInitOutcome::Initialized(true))
        .unwrap();
    let again = manager.load_plugin(&ids[0], ModuleInitOutcome::Initialized(true));
    assert!(matches!(again, Err(RuntimeError::InvalidState)));
    assert!(matches!(manager.load_path(&ids[0], "so"), Err(RuntimeError::InvalidState)));
    let info = manager.get_plugin(&ids[0]).unwrap();
    assert_eq!(info.status, PluginStatus::Running);
}

#[test]
fn failed_initialization_is_failed_but_retains_handle() {
    let mut manager = PluginManager::new();
    let ids = manager.scan(vec![(echo_metadata(), "plugins/echo".to_string())]);
    let r = manager.load_plugin(&ids[0], ModuleInitOutcome::Initialized(false));
    assert!(matches!(r, Err(RuntimeError::PluginInitError)));
    let info = manager.get_plugin(&ids[0]).unwrap();
    assert_eq!(info.status, PluginStatus::Failed);
    // unload of a failed instance is a no-op; the retained handle
    // stays with the instance until a later load replaces it
    assert!(manager.begin_unload(&ids[0]).is_none());
}

#[test]
fn failed_instance_may_be_loaded_again() {
    let mut manager = PluginManager::new();
    let ids = manager.scan(vec![(echo_metadata(), "plugins/echo".to_string())]);
    let _ = manager.load_plugin(&ids[0], ModuleInitOutcome::Initialized(false));
    manager
        .load_plugin(&ids[0], ModuleInitOutcome::Initialized(true))
        .unwrap();
    let info = manager.get_plugin(&ids[0]).unwrap();
    assert_eq!(info.status, PluginStatus::Running);
}

#[test]
fn module_open_failure_reports_load_error() {
    let mut manager = PluginManager::new();
    let ids = manager.scan(vec![(echo_metadata(), "plugins/echo".to_string())]);
    let r = manager.load_plugin(
        &ids[0],
        ModuleInitOutcome::OpenFailed("bad module".to_string()),
    );
    assert!(matches!(r, Err(RuntimeError::ModuleLoadError(_))));
    let r = manager.load_plugin(&ids[0], ModuleInitOutcome::LibraryMissing);
    assert!(matches!(r, Err(RuntimeError::NotFound)));
    let info = manager.get_plugin(&ids[0]).unwrap();
    assert_eq!(info.status, PluginStatus::Registered);
}

#[test]
fn unload_of_inactive_instance_is_a_no_op() {
    let mut manager = PluginManager::new();
    let ids = manager.scan(vec![(echo_metadata(), "plugins/echo".to_string())]);
    // Registered
    assert!(manager.begin_unload(&ids[0]).is_none());
    assert_eq!(manager.get_plugin(&ids[0]).unwrap().status, PluginStatus::Registered);
    // Failed
    let _ = manager.load_plugin(&ids[0], ModuleInitOutcome::Initialized(false));
    // take the retained handle out first so the instance can go to Unloaded
    manager
        .load_plugin(&ids[0], ModuleInitOutcome::Initialized(true))
        .unwrap();
    let h = manager.begin_unload(&ids[0]).unwrap();
    assert!(manager.finish_unload(&ids[0], Ok(())).is_ok());
    drop(h);
    // Unloaded
    assert!(manager.begin_unload(&ids[0]).is_none());
    assert_eq!(manager.get_plugin(&ids[0]).unwrap().status, PluginStatus::Unloaded);
    // unknown id
    let bogus = plugin_manager::id::PluginId::from("nosuchid".to_string());
    assert!(manager.begin_unload(&bogus).is_none());
}

#[test]
fn cleanup_failure_is_propagated_but_module_is_gone() {
    let mut manager = PluginManager::new();
    let ids = manager.scan(vec![(echo_metadata(), "plugins/echo".to_string())]);
    manager
        .load_plugin(&ids[0], ModuleInitOutcome::Initialized(true))
        .unwrap();
    let handle = manager.begin_unload(&ids[0]);
    assert!(handle.is_some());
    let r = manager.finish_unload(&ids[0], Err("cleanup exploded".to_string()));
    assert!(matches!(r, Err(RuntimeError::PluginError(_))));
    // status is untouched, but the handle has left the registry
    assert_eq!(manager.get_plugin(&ids[0]).unwrap().status, PluginStatus::Running);
    assert!(matches!(manager.prepare_call(&ids[0]), Err(RuntimeError::HandleMissing)));
}

#[test]
fn reload_yields_a_fresh_handle() {
    let mut manager = PluginManager::new();
    let ids = manager.scan(vec![(echo_metadata(), "plugins/echo".to_string())]);
    manager
        .load_plugin(&ids[0], ModuleInitOutcome::Initialized(true))
        .unwrap();
    let first_token = manager.prepare_call(&ids[0]).unwrap();
    let taken = manager.begin_unload(&ids[0]).unwrap();
    assert_eq!(taken.token, first_token);
    manager.finish_unload(&ids[0], Ok(())).unwrap();
    assert_eq!(manager.get_plugin(&ids[0]).unwrap().status, PluginStatus::Unloaded);
    manager
        .load_plugin(&ids[0], ModuleInitOutcome::Initialized(true))
        .unwrap();
    let second_token = manager.prepare_call(&ids[0]).unwrap();
    assert_ne!(first_token, second_token);
    assert_eq!(manager.get_plugin(&ids[0]).unwrap().status, PluginStatus::Running);
}

#[test]
fn call_gate_reports_each_precondition() {
    let mut manager = PluginManager::new();
    let bogus = plugin_manager::id::PluginId::from("nosuchid".to_string());
    assert!(matches!(manager.prepare_call(&bogus), Err(RuntimeError::NotFound)));
    let ids = manager.scan(vec![(echo_metadata(), "plugins/echo".to_string())]);
    assert!(matches!(manager.prepare_call(&ids[0]), Err(RuntimeError::InvalidState)));
    manager
        .load_plugin(&ids[0], ModuleInitOutcome::Initialized(true))
        .unwrap();
    assert!(manager.prepare_call(&ids[0]).is_ok());
}

#[test]
fn list_plugins_snapshots_in_insertion_order() {
    let mut manager = PluginManager::new();
    let meta_b = PluginMetadata::new("other", "0.2.0", "b", Some("desc"), PluginType::Hybrid);
    let ids = manager.scan(vec![
        (echo_metadata(), "plugins/echo".to_string()),
        (meta_b, "plugins/other".to_string()),
    ]);
    let listed = manager.list_plugins();
    assert_eq!(listed.len(), 2);
    assert_eq!(listed[0].0.as_str(), ids[0].as_str());
    assert_eq!(listed[0].1.name, "echo");
    assert_eq!(listed[1].1.name, "other");
}

#[test]
fn cleanup_takes_every_handle_once() {
    let mut manager = PluginManager::new();
    let meta_b = PluginMetadata::new("other", "0.2.0", "b", None, PluginType::RustLibrary);
    let ids = manager.scan(vec![
        (echo_metadata(), "plugins/echo".to_string()),
        (meta_b, "plugins/other".to_string()),
    ]);
    manager
        .load_plugin(&ids[0], ModuleInitOutcome::Initialized(true))
        .unwrap();
    manager
        .load_plugin(&ids[1], ModuleInitOutcome::Initialized(true))
        .unwrap();
    let handles = manager.cleanup();
    assert_eq!(handles.len(), 2);
    assert_ne!(handles[0].token, handles[1].token);
    let again = manager.cleanup();
    assert!(again.is_empty());
}
