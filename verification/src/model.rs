//! Data model of the plugin runtime: lifecycle status, plugin kind,
//! descriptor metadata and per-plugin configuration.

use vstd::prelude::*;
use vstd::string::*;

verus! {

/// Failure taxonomy of the runtime. Registry operations report these as
/// typed results; the RPC boundary maps each variant to a stable wire
/// error code.
#[derive(Debug)]
pub enum RuntimeError {
    /// Unknown id, or the expected module file was absent.
    NotFound,
    /// The operation's status precondition was not met (for example a
    /// load while already running, or a call while not running).
    InvalidState,
    /// The instance is running, yet no handle was present. Should not
    /// occur under correct sequencing; checked defensively.
    HandleMissing,
    /// Opening the native module, or resolving its entry symbol, failed.
    ModuleLoadError(String),
    /// The plugin's own initialization reported failure.
    PluginInitError,
    /// A typed/byte conversion failed at the capability adapter.
    ConversionError,
    /// A malformed multiplexed stream was seen at the RPC boundary.
    ProtocolError,
    /// A failure surfaced from inside a plugin's own call.
    PluginError(String),
    /// The plugin does not implement the requested capability.
    NotImplemented,
}

/// Lifecycle state of a registered plugin instance.
#[derive(Clone, Copy, Debug, PartialEq, Eq, Structural)]
pub enum PluginStatus {
    /// Not loaded (either never loaded or unloaded again).
    Unloaded,
    /// Discovered by a scan and registered, but not running.
    Registered,
    /// A load attempt reached the plugin's own initialization and failed.
    Failed,
    /// Loaded and initialized; calls may be dispatched to it.
    Running,
}

impl PluginStatus {
    /// A plugin may be (re)loaded from every state except `Running`.
    /// `Failed` is deliberately loadable again: a failed initialization
    /// may be retried.
    pub open spec fn spec_is_loadable(self) -> bool {
        self != PluginStatus::Running
    }

    /// Only a `Running` plugin is active: calls are dispatched to it and
    /// an unload must run its cleanup.
    pub open spec fn spec_is_active(self) -> bool {
        self == PluginStatus::Running
    }

    pub fn is_loadable(&self) -> (r: bool)
        ensures
            r == self.spec_is_loadable(),
    {
        !matches!(self, PluginStatus::Running)
    }

    pub fn is_active(&self) -> (r: bool)
        ensures
            r == self.spec_is_active(),
    {
        matches!(self, PluginStatus::Running)
    }
}

/// Kind of a plugin, as named by its descriptor.
#[derive(Clone, Copy, Debug, PartialEq, Eq, Structural)]
pub enum PluginType {
    /// A native dynamic library.
    RustLibrary,
    /// A frontend microservice reached through its URL.
    FrontendMicroservice,
    /// Both a native library and a frontend part.
    Hybrid,
}

/// Mathematical value of a [`PluginConfig`].
#[verifier::ext_equal]
pub ghost struct ConfigView {
    pub plugin_dir: Seq<char>,
    pub library_name: Seq<char>,
    pub entry_point: Seq<char>,
    pub frontend_url: Option<Seq<char>>,
    pub dependencies: Seq<Seq<char>>,
    pub parameters: Seq<(Seq<char>, Seq<char>)>,
}

/// Per-plugin configuration, either read from the descriptor or derived
/// from the metadata by [`PluginConfig::default`].
pub struct PluginConfig {
    /// Directory that holds the plugin's files.
    pub plugin_dir: String,
    /// Base file name of the native module, without the platform extension.
    pub library_name: String,
    /// Name of the factory symbol resolved in the native module.
    pub entry_point: String,
    /// Address of the plugin's frontend service, if it has one.
    pub frontend_url: Option<String>,
    /// Names of plugins this one depends on.
    pub dependencies: Vec<String>,
    /// Free-form string parameters, keyed by name.
    pub parameters: Vec<(String, String)>,
}

impl View for PluginConfig {
    type V = ConfigView;

    open spec fn view(&self) -> ConfigView {
        ConfigView {
            plugin_dir: self.plugin_dir@,
            library_name: self.library_name@,
            entry_point: self.entry_point@,
            frontend_url: match self.frontend_url {
                Some(u) => Some(u@),
                None => None,
            },
            dependencies: self.dependencies@.map_values(|d: String| d@),
            parameters: self.parameters@.map_values(|kv: (String, String)| (kv.0@, kv.1@)),
        }
    }
}

impl PluginConfig {
    /// The parameter list behaves as a map: keys occur at most once.
    pub open spec fn params_wf(self) -> bool {
        forall|i: int, j: int|
            0 <= i < j < self@.parameters.len() ==> self@.parameters[i].0 != self@.parameters[j].0
    }

    /// Configuration derived from the metadata alone: the library is named
    /// after the plugin, the directory is the descriptor's directory, and
    /// the entry symbol is the fixed factory name.
    pub fn default(name: &str, dir: &str) -> (r: Self)
        ensures
            r@.plugin_dir == dir@,
            r@.library_name == name@,
            r@.entry_point == "create_plugin"@,
            r@.frontend_url is None,
            r@.dependencies.len() == 0,
            r@.parameters.len() == 0,
            r.params_wf(),
    {
        PluginConfig {
            plugin_dir: dir.to_owned(),
            library_name: name.to_owned(),
            entry_point: "create_plugin".to_owned(),
            frontend_url: None,
            dependencies: Vec::new(),
            parameters: Vec::new(),
        }
    }
}

impl Clone for PluginConfig {
    fn clone(&self) -> (res: Self)
        ensures
            res@ == self@,
    {
        let mut dependencies: Vec<String> = Vec::new();
        let mut i: usize = 0;
        while i < self.dependencies.len()
            invariant
                i <= self.dependencies.len(),
                dependencies@.len() == i as nat,
                forall|k: int| 0 <= k < i ==> dependencies@[k]@ == self.dependencies@[k]@,
            decreases self.dependencies.len() - i,
        {
            dependencies.push(self.dependencies[i].clone());
            i = i + 1;
        }
        let mut parameters: Vec<(String, String)> = Vec::new();
        let mut j: usize = 0;
        while j < self.parameters.len()
            invariant
                j <= self.parameters.len(),
                parameters@.len() == j as nat,
                forall|k: int| 0 <= k < j ==> parameters@[k].0@ == self.parameters@[k].0@
                    && parameters@[k].1@ == self.parameters@[k].1@,
            decreases self.parameters.len() - j,
        {
            let (key, value) = (self.parameters[j].0.clone(), self.parameters[j].1.clone());
            parameters.push((key, value));
            j = j + 1;
        }
        let res = PluginConfig {
            plugin_dir: self.plugin_dir.clone(),
            library_name: self.library_name.clone(),
            entry_point: self.entry_point.clone(),
            frontend_url: match &self.frontend_url {
                Some(u) => Some(u.clone()),
                None => None,
            },
            dependencies,
            parameters,
        };
        proof {
            assert(res@.dependencies =~= self@.dependencies);
            assert(res@.parameters =~= self@.parameters);
            assert(res@ =~= self@);
        }
        res
    }
}

/// Mathematical value of a [`PluginMetadata`].
#[verifier::ext_equal]
pub ghost struct MetadataView {
    pub name: Seq<char>,
    pub version: Seq<char>,
    pub author: Seq<char>,
    pub description: Option<Seq<char>>,
    pub api_version: Option<Seq<char>>,
    pub plugin_type: PluginType,
    pub config: Option<ConfigView>,
}

/// Descriptor metadata of a plugin, read-only after the descriptor parse.
pub struct PluginMetadata {
    pub name: String,
    pub version: String,
    pub author: String,
    pub description: Option<String>,
    pub api_version: Option<String>,
    pub plugin_type: PluginType,
    /// Configuration embedded in the descriptor, if any.
    pub config: Option<PluginConfig>,
}

impl View for PluginMetadata {
    type V = MetadataView;

    open spec fn view(&self) -> MetadataView {
        MetadataView {
            name: self.name@,
            version: self.version@,
            author: self.author@,
            description: match self.description {
                Some(d) => Some(d@),
                None => None,
            },
            api_version: match self.api_version {
                Some(v) => Some(v@),
                None => None,
            },
            plugin_type: self.plugin_type,
            config: match self.config {
                Some(c) => Some(c@),
                None => None,
            },
        }
    }
}

impl PluginMetadata {
    pub fn new(
        name: &str,
        version: &str,
        author: &str,
        description: Option<&str>,
        plugin_type: PluginType,
    ) -> (r: Self)
        ensures
            r@.name == name@,
            r@.version == version@,
            r@.author == author@,
            r@.description == (match description {
                Some(d) => Some(d@),
                None => None::<Seq<char>>,
            }),
            r@.api_version is None,
            r@.plugin_type == plugin_type,
            r@.config is None,
    {
        PluginMetadata {
            name: name.to_owned(),
            version: version.to_owned(),
            author: author.to_owned(),
            description: match description {
                Some(d) => Some(d.to_owned()),
                None => None,
            },
            api_version: None,
            plugin_type,
            config: None,
        }
    }
}

impl Clone for PluginMetadata {
    fn clone(&self) -> (res: Self)
        ensures
            res@ == self@,
    {
        let res = PluginMetadata {
            name: self.name.clone(),
            version: self.version.clone(),
            author: self.author.clone(),
            description: match &self.description {
                Some(d) => Some(d.clone()),
                None => None,
            },
            api_version: match &self.api_version {
                Some(v) => Some(v.clone()),
                None => None,
            },
            plugin_type: self.plugin_type,
            config: match &self.config {
                Some(c) => Some(c.clone()),
                None => None,
            },
        };
        proof {
            assert(res@ =~= self@);
        }
        res
    }
}

} // verus!
