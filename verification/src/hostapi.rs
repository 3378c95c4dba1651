//! Minimal host-facing plugin surface: the context a host hands to a
//! plugin factory, the interface a plugin implements for it, and the
//! error type plugins report through it.

use vstd::prelude::*;
use vstd::string::*;

verus! {

/// What the host tells a plugin about itself.
#[derive(Debug, Clone, Copy)]
pub struct AppContext {
    app_version: &'static str,
}

impl AppContext {
    pub fn new(app_version: &'static str) -> (r: Self)
        ensures
            r.spec_app_version() == app_version@,
    {
        AppContext { app_version }
    }

    pub closed spec fn spec_app_version(&self) -> Seq<char> {
        self.app_version@
    }

    pub fn app_version(&self) -> (r: &str)
        ensures
            r@ == self.spec_app_version(),
    {
        self.app_version
    }
}

/// Identity a plugin reports to the host.
#[derive(Debug, Clone, Copy)]
pub struct PluginInfo {
    pub id: &'static str,
    pub version: &'static str,
}

/// What a plugin implements for this host surface.
pub trait Plugin {
    fn info(&self) -> PluginInfo;

    fn init(&self);
}

/// Failure a plugin reports through this surface.
pub enum PluginError {
    Normal(String),
}

impl PluginError {
    /// The error rendered as text.
    pub fn message(&self) -> (r: String)
        ensures
            match self {
                PluginError::Normal(m) => r@ == "Plugin error: "@ + m@,
            },
    {
        match self {
            PluginError::Normal(m) => {
                let mut s = "Plugin error: ".to_owned();
                s.append(m.as_str());
                s
            },
        }
    }
}

pub type PluginResult<T> = Result<T, PluginError>;

/// The sample plugin of this surface: it identifies itself and does
/// nothing at initialization.
pub struct PluginAdb {}

impl Plugin for PluginAdb {
    fn info(&self) -> (r: PluginInfo)
        ensures
            r.id@ == "com.munch1182.plugin_adb"@,
            r.version@ == "0.0.1"@,
    {
        PluginInfo { id: "com.munch1182.plugin_adb", version: "0.0.1" }
    }

    fn init(&self) {
    }
}

} // verus!
