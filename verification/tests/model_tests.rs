//! Identifiers, descriptor model, response envelopes, pagination and
//! the minimal host surface.

use plugin_manager::hostapi::{AppContext, Plugin, PluginAdb, PluginError};
use plugin_manager::id::PluginId;
use plugin_manager::model::{PluginConfig, PluginMetadata, PluginType};
use plugin_manager::pagination::PaginationInput;
use plugin_manager::resp::Resp;

#[test]
fn id_derivation_is_deterministic() {
    let meta = PluginMetadata::new("echo", "0.1.0", "a", None, PluginType::RustLibrary);
    let one = PluginId::new(&meta);
    let two = PluginId::new(&meta);
    assert_eq!(one.as_str(), two.as_str());
    assert_eq!(one.as_str().len(), 24);
    // the id is a digest prefix pair, never the raw name text
    assert_ne!(one.as_str(), "aecho");
    assert!(one.as_str().chars().all(|c| c.is_ascii_hexdigit()));
}

#[test]
fn distinct_pairs_get_distinct_ids() {
    let meta_a = PluginMetadata::new("echo", "0.1.0", "a", None, PluginType::RustLibrary);
    let meta_b = PluginMetadata::new("echo", "0.1.0", "b", None, PluginType::RustLibrary);
    let meta_c = PluginMetadata::new("other", "0.1.0", "a", None, PluginType::RustLibrary);
    let id_a = PluginId::new(&meta_a);
    let id_b = PluginId::new(&meta_b);
    let id_c = PluginId::new(&meta_c);
    assert_ne!(id_a.as_str(), id_b.as_str());
    assert_ne!(id_a.as_str(), id_c.as_str());
    // the version plays no part in the id
    let meta_v = PluginMetadata::new("echo", "9.9.9", "a", None, PluginType::RustLibrary);
    assert_eq!(id_a.as_str(), PluginId::new(&meta_v).as_str());
}

#[test]
fn wire_ids_round_trip() {
    let id = PluginId::from("43f551f96ddd5314b63cb342".to_string());
    assert_eq!(id.as_str(), "43f551f96ddd5314b63cb342");
    let copy = id.clone();
    assert!(copy == id);
}

#[test]
fn metadata_carries_what_was_given() {
    let meta = PluginMetadata::new("echo", "0.1.0", "a", Some("echoes"), PluginType::Hybrid);
    assert_eq!(meta.name, "echo");
    assert_eq!(meta.version, "0.1.0");
    assert_eq!(meta.author, "a");
    assert_eq!(meta.description.as_deref(), Some("echoes"));
    assert!(meta.api_version.is_none());
    assert!(meta.config.is_none());
}

#[test]
fn default_config_fills_every_field() {
    let config = PluginConfig::default("echo", "plugins/echo");
    assert_eq!(config.library_name, "echo");
    assert_eq!(config.entry_point, "create_plugin");
    assert_eq!(config.plugin_dir, "plugins/echo");
    assert!(config.frontend_url.is_none());
    assert!(config.dependencies.is_empty());
    assert!(config.parameters.is_empty());
}

#[test]
fn response_envelopes_tell_success_apart() {
    let ok = Resp::success("payload".to_string());
    assert_eq!(ok.code, 0);
    assert_eq!(ok.msg, "success");
    assert_eq!(ok.data.as_deref(), Some("payload"));
    assert!(ok.is_ok());
    assert!(!ok.is_err());

    let failed = Resp::error(3, "plugin not found");
    assert_eq!(failed.code, 3);
    assert_eq!(failed.msg, "plugin not found");
    assert!(failed.data.is_none());
    assert!(failed.is_err());

    let sys = Resp::syserr("boom");
    assert_eq!(sys.code, 1);
    assert!(sys.is_err());
}

#[test]
fn pagination_defaults_and_clamps() {
    let page = PaginationInput::new();
    assert_eq!(page.skip(), 0);
    assert_eq!(page.limit(), 10);
    let page = PaginationInput::default();
    assert_eq!(page.limit(), 10);
    let page = PaginationInput::with(None, None);
    assert_eq!(page.skip(), 0);
    assert_eq!(page.limit(), 10);
    let page = PaginationInput::with(Some(7), Some(0));
    assert_eq!(page.skip(), 7);
    assert_eq!(page.limit(), 1);
    let page = PaginationInput::with(Some(7), Some(1000));
    assert_eq!(page.limit(), 100);
    let page = PaginationInput::with(Some(7), Some(55));
    assert_eq!(page.limit(), 55);
}

#[test]
fn host_surface_reports_identities() {
    let app = AppContext::new("0.0.1");
    assert_eq!(app.app_version(), "0.0.1");
    let plugin = PluginAdb {};
    let info = plugin.info();
    assert_eq!(info.id, "com.munch1182.plugin_adb");
    assert_eq!(info.version, "0.0.1");
    plugin.init();
    let e = PluginError::Normal("missing device".to_string());
    assert_eq!(e.message(), "Plugin error: missing device");
}
