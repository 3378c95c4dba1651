//! The plugin registry: owns every plugin instance, its status and its
//! handle token, and performs the state transitions of scan, load,
//! unload and call dispatch.
//!
//! The registry never touches the file system or a native module itself.
//! The host performs those steps and reports their outcome; the registry
//! decides, from its state and that outcome, what the new state and the
//! result of the operation are. A [`PluginHandle`] is a token naming the
//! host-held pairing of an opened native module and the interface object
//! obtained from it; tokens are handed out freshly on every load, so a
//! reloaded plugin never reuses an old handle.

use vstd::prelude::*;
use vstd::string::*;
use crate::id::{PluginId, spec_plugin_id};
use crate::model::{PluginConfig, PluginMetadata, PluginStatus, RuntimeError};
use crate::model::{ConfigView, MetadataView};

verus! {

/// Token naming the host-held module-plus-interface pairing of one
/// loaded plugin. Exclusively owned by its instance; taking it out of
/// the registry (for cleanup) consumes it.
pub struct PluginHandle {
    pub token: u64,
}

impl View for PluginHandle {
    type V = u64;

    open spec fn view(&self) -> u64 {
        self.token
    }
}

/// Mathematical value of a [`PluginInstance`].
#[verifier::ext_equal]
pub ghost struct InstanceView {
    pub metadata: MetadataView,
    pub config: ConfigView,
    pub status: PluginStatus,
    pub handle: Option<u64>,
}

/// One registered plugin: its metadata, resolved configuration, current
/// lifecycle status and, while loaded, its handle token.
pub struct PluginInstance {
    pub metadata: PluginMetadata,
    pub config: PluginConfig,
    pub status: PluginStatus,
    pub handle: Option<PluginHandle>,
}

impl View for PluginInstance {
    type V = InstanceView;

    open spec fn view(&self) -> InstanceView {
        InstanceView {
            metadata: self.metadata@,
            config: self.config@,
            status: self.status,
            handle: match self.handle {
                Some(h) => Some(h@),
                None => None,
            },
        }
    }
}

/// The configuration an instance runs with: the descriptor-embedded one
/// if present, else the defaults derived from the metadata.
pub open spec fn spec_resolved_config(m: MetadataView, dir: Seq<char>) -> ConfigView {
    match m.config {
        Some(c) => c,
        None => ConfigView {
            plugin_dir: dir,
            library_name: m.name,
            entry_point: "create_plugin"@,
            frontend_url: None,
            dependencies: Seq::empty(),
            parameters: Seq::empty(),
        },
    }
}

impl PluginInstance {
    /// Build a freshly registered instance from its descriptor metadata,
    /// resolving the configuration fallback chain.
    pub fn new(metadata: PluginMetadata, dir: &str) -> (r: Self)
        ensures
            r@.metadata == metadata@,
            r@.config == spec_resolved_config(metadata@, dir@),
            r@.status == PluginStatus::Unloaded,
            r@.handle is None,
    {
        let config = match &metadata.config {
            Some(c) => c.clone(),
            None => PluginConfig::default(metadata.name.as_str(), dir),
        };
        proof {
            assert(config@ =~= spec_resolved_config(metadata@, dir@));
        }
        PluginInstance { metadata, config, status: PluginStatus::Unloaded, handle: None }
    }

    pub fn update_status(&mut self, status: PluginStatus)
        ensures
            final(self)@ == (InstanceView { status, ..old(self)@ }),
    {
        self.status = status;
    }
}

/// Snapshot of one instance as [`PluginManager::get_plugin`] returns it.
pub struct PluginInfo {
    pub metadata: PluginMetadata,
    pub config: PluginConfig,
    pub status: PluginStatus,
}

/// What the host must do to load a plugin: open this module file and
/// resolve this entry symbol in it.
pub struct LoadPlan {
    pub library_path: String,
    pub entry_point: String,
}

/// The outcome the host reports after following a [`LoadPlan`].
pub enum ModuleInitOutcome {
    /// The module file named by the plan was absent.
    LibraryMissing,
    /// Opening the native module failed; the payload is the loader's message.
    OpenFailed(String),
    /// The entry symbol could not be resolved; the payload is the message.
    SymbolNotFound(String),
    /// The module was opened and the factory produced an interface
    /// object; the payload says whether the plugin's own initialization
    /// succeeded. Either way the host keeps the module open, so a
    /// later unload can still run cleanup and release it.
    Initialized(bool),
}

/// Mathematical value of a [`PluginManager`]: the instances in insertion
/// order, keyed by id text, and the next fresh handle token.
#[verifier::ext_equal]
pub ghost struct ManagerView {
    pub entries: Seq<(Seq<char>, InstanceView)>,
    pub next_handle: u64,
}

/// `{plugin_dir}/{library_name}.{ext}`.
pub open spec fn spec_library_path(c: ConfigView, ext: Seq<char>) -> Seq<char> {
    c.plugin_dir + "/"@ + c.library_name + "."@ + ext
}

impl ManagerView {
    /// Ids are unique, and every stored handle token was drawn from the
    /// fresh-token counter (so it is below the counter's next value).
    pub open spec fn wf(self) -> bool {
        &&& forall|i: int, j: int|
            0 <= i < j < self.entries.len() ==> self.entries[i].0 != self.entries[j].0
        &&& forall|i: int|
            0 <= i < self.entries.len() ==> match #[trigger] self.entries[i].1.handle {
                Some(t) => t < self.next_handle,
                None => true,
            }
    }

    pub open spec fn has_id(self, id: Seq<char>) -> bool {
        exists|i: int| 0 <= i < self.entries.len() && #[trigger] self.entries[i].0 == id
    }

    /// The index of `id`; meaningful only when `has_id` holds (and then,
    /// under `wf`, it is the one such index).
    pub open spec fn idx_of(self, id: Seq<char>) -> int {
        choose|i: int| 0 <= i < self.entries.len() && #[trigger] self.entries[i].0 == id
    }

    pub open spec fn inst_of(self, id: Seq<char>) -> InstanceView {
        self.entries[self.idx_of(id)].1
    }
}

/// Under unique ids, any index holding `id` is the chosen one.
pub proof fn lemma_idx_of_unique(v: ManagerView, id: Seq<char>, i: int)
    requires
        v.wf(),
        0 <= i < v.entries.len(),
        v.entries[i].0 == id,
    ensures
        v.has_id(id),
        v.idx_of(id) == i,
{
    assert(v.has_id(id));
    let j = v.idx_of(id);
    assert(0 <= j < v.entries.len() && v.entries[j].0 == id);
    if i < j {
        assert(v.entries[i].0 != v.entries[j].0);
    } else if j < i {
        assert(v.entries[j].0 != v.entries[i].0);
    }
}

/// Upsert relation of one scan registration: an existing entry with the
/// same id is overwritten in place; a new id is appended.
pub open spec fn spec_upserted(
    pre: ManagerView,
    post: ManagerView,
    id: Seq<char>,
    inst: InstanceView,
) -> bool {
    &&& post.next_handle == pre.next_handle
    &&& if pre.has_id(id) {
        post.entries == pre.entries.update(pre.idx_of(id), (id, inst))
    } else {
        post.entries == pre.entries.push((id, inst))
    }
}

/// The instance one scan registration stores: the scanned metadata,
/// its resolved configuration, status `Registered`, and no handle.
pub open spec fn spec_instance_of(m: MetadataView, dir: Seq<char>) -> InstanceView {
    InstanceView {
        metadata: m,
        config: spec_resolved_config(m, dir),
        status: PluginStatus::Registered,
        handle: None,
    }
}

/// The registry after one upsert, as a value: the same counter, and
/// the entries with `id` overwritten in place or appended.
pub open spec fn spec_apply_upsert(pre: ManagerView, id: Seq<char>, inst: InstanceView) -> ManagerView {
    ManagerView {
        next_handle: pre.next_handle,
        entries: if pre.has_id(id) {
            pre.entries.update(pre.idx_of(id), (id, inst))
        } else {
            pre.entries.push((id, inst))
        },
    }
}

/// The mathematical values of a scanned descriptor batch.
pub open spec fn spec_batch_views(batch: Seq<(PluginMetadata, String)>) -> Seq<
    (MetadataView, Seq<char>),
> {
    batch.map_values(|p: (PluginMetadata, String)| (p.0@, p.1@))
}

/// The registry after a whole scan batch: each descriptor registered
/// in order under its derived id as a fresh `Registered` instance,
/// existing ids overwritten in place, everything else untouched.
pub open spec fn spec_scan_applied(
    pre: ManagerView,
    batch: Seq<(MetadataView, Seq<char>)>,
) -> ManagerView
    decreases batch.len(),
{
    if batch.len() == 0 {
        pre
    } else {
        let first = batch[0];
        spec_scan_applied(
            spec_apply_upsert(
                pre,
                spec_plugin_id(first.0.author, first.0.name),
                spec_instance_of(first.0, first.1),
            ),
            batch.drop_first(),
        )
    }
}

/// Load-completion relation: the entry keeps its metadata and
/// configuration, receives the fresh handle token, and becomes
/// `Running` on a successful initialization, `Failed` otherwise.
pub open spec fn spec_load_applied(
    pre: ManagerView,
    post: ManagerView,
    id: Seq<char>,
    ok: bool,
) -> bool {
    &&& pre.has_id(id)
    &&& post.next_handle == pre.next_handle + 1
    &&& post.entries == pre.entries.update(
        pre.idx_of(id),
        (
            id,
            InstanceView {
                status: if ok {
                    PluginStatus::Running
                } else {
                    PluginStatus::Failed
                },
                handle: Some(pre.next_handle),
                ..pre.inst_of(id)
            },
        ),
    )
}

/// Handle-removal relation of the first unload step: the handle leaves
/// the instance; everything else, the status included, stays.
pub open spec fn spec_handle_taken(pre: ManagerView, post: ManagerView, id: Seq<char>) -> bool {
    &&& pre.has_id(id)
    &&& post.next_handle == pre.next_handle
    &&& post.entries == pre.entries.update(
        pre.idx_of(id),
        (id, InstanceView { handle: None, ..pre.inst_of(id) }),
    )
}

/// Status-set relation of the second unload step.
pub open spec fn spec_status_set(
    pre: ManagerView,
    post: ManagerView,
    id: Seq<char>,
    status: PluginStatus,
) -> bool {
    &&& pre.has_id(id)
    &&& post.next_handle == pre.next_handle
    &&& post.entries == pre.entries.update(
        pre.idx_of(id),
        (id, InstanceView { status, ..pre.inst_of(id) }),
    )
}

/// The registry. One instance exists per registered id; an instance is
/// created by scan, mutated by load and unload, and never removed once
/// created (a rescan overwrites the same id).
pub struct PluginManager {
    plugins: Vec<(PluginId, PluginInstance)>,
    next_handle: u64,
}

impl View for PluginManager {
    type V = ManagerView;

    closed spec fn view(&self) -> ManagerView {
        ManagerView {
            entries: self.plugins@.map_values(|e: (PluginId, PluginInstance)| (e.0@, e.1@)),
            next_handle: self.next_handle,
        }
    }
}

impl Default for PluginManager {
    fn default() -> (r: Self)
        ensures
            r@.entries.len() == 0,
            r@.next_handle == 0,
            r@.wf(),
    {
        PluginManager::new()
    }
}

impl PluginManager {
    pub fn new() -> (r: Self)
        ensures
            r@.entries.len() == 0,
            r@.next_handle == 0,
            r@.wf(),
    {
        PluginManager { plugins: Vec::new(), next_handle: 0 }
    }

    /// Whether another load can still draw a fresh handle token (the
    /// host checks this before completing a load).
    pub fn has_capacity(&self) -> (r: bool)
        ensures
            r == (self@.next_handle < u64::MAX),
    {
        self.next_handle < u64::MAX
    }

    /// The token the next completed load will assign (the host uses it
    /// to file the module it just opened).
    pub fn next_token(&self) -> (r: u64)
        ensures
            r == self@.next_handle,
    {
        self.next_handle
    }

    /// The index of `id` among the instances, if it is registered.
    fn find(&self, id: &PluginId) -> (r: Option<usize>)
        ensures
            match r {
                Some(i) => i < self@.entries.len() && self@.entries[i as int].0 == id@,
                None => forall|i: int| 0 <= i < self@.entries.len() ==> self@.entries[i].0 != id@,
            },
    {
        let mut i: usize = 0;
        while i < self.plugins.len()
            invariant
                i <= self.plugins.len(),
                self@.entries.len() == self.plugins@.len(),
                forall|k: int| 0 <= k < self.plugins@.len() ==> self@.entries[k].0
                    == self.plugins@[k].0@,
                forall|k: int| 0 <= k < i ==> self@.entries[k].0 != id@,
            decreases self.plugins.len() - i,
        {
            if self.plugins[i].0 == *id {
                return Some(i);
            }
            i = i + 1;
        }
        None
    }

    /// Register the plugin that `metadata` describes, found in directory
    /// `dir`: derive its id, resolve its configuration and store a fresh
    /// `Registered` instance, overwriting any earlier instance with the
    /// same id. Returns the derived id.
    pub fn register_plugin(&mut self, metadata: PluginMetadata, dir: &str) -> (r: PluginId)
        requires
            old(self)@.wf(),
        ensures
            final(self)@.wf(),
            r@ == spec_plugin_id(metadata@.author, metadata@.name),
            spec_upserted(old(self)@, final(self)@, r@, spec_instance_of(metadata@, dir@)),
    {
        let id = PluginId::new(&metadata);
        let mut instance = PluginInstance::new(metadata, dir);
        instance.update_status(PluginStatus::Registered);
        let ghost iv = instance@;
        let ghost pre = self@;
        match self.find(&id) {
            Some(i) => {
                proof {
                    lemma_idx_of_unique(pre, id@, i as int);
                }
                self.plugins.set(i, (id.clone(), instance));
                proof {
                    assert(self@.entries =~= pre.entries.update(i as int, (id@, iv)));
                    lemma_upsert_wf(pre, self@, id@, iv);
                }
                id
            },
            None => {
                self.plugins.push((id.clone(), instance));
                proof {
                    assert(self@.entries =~= pre.entries.push((id@, iv)));
                    assert(!pre.has_id(id@));
                    lemma_upsert_wf(pre, self@, id@, iv);
                }
                id
            },
        }
    }

    /// Register a whole batch of scanned descriptors, in order, and
    /// return the ids discovered, in the same order: the registry ends
    /// up exactly at the fold of the per-descriptor upsert over the
    /// batch (each id registered as a fresh `Registered` instance,
    /// existing ids overwritten in place). An empty batch (for example
    /// from a directory that was just created) registers nothing and
    /// returns an empty list.
    pub fn scan(&mut self, found: Vec<(PluginMetadata, String)>) -> (r: Vec<PluginId>)
        requires
            old(self)@.wf(),
        ensures
            final(self)@.wf(),
            final(self)@ == spec_scan_applied(old(self)@, spec_batch_views(found@)),
            r@.len() == found@.len(),
            forall|i: int| 0 <= i < r@.len() ==> r@[i]@ == spec_plugin_id(
                found@[i].0@.author,
                found@[i].0@.name,
            ),
    {
        let ghost orig = found@;
        let ghost bviews = spec_batch_views(found@);
        proof {
            assert(bviews.skip(0) =~= bviews);
        }
        let mut ids: Vec<PluginId> = Vec::new();
        let mut rest = found;
        let mut i: usize = 0;
        let n = rest.len();
        while i < n
            invariant
                i <= n,
                n == orig.len(),
                n == bviews.len(),
                bviews == spec_batch_views(orig),
                rest@ == orig.subrange(i as int, n as int),
                self@.wf(),
                spec_scan_applied(old(self)@, bviews) == spec_scan_applied(
                    self@,
                    bviews.skip(i as int),
                ),
                ids@.len() == i as nat,
                forall|k: int| 0 <= k < i ==> ids@[k]@ == spec_plugin_id(
                    orig[k].0@.author,
                    orig[k].0@.name,
                ),
            decreases n - i,
        {
            let (metadata, dir) = rest.remove(0);
            let ghost mv = metadata@;
            let ghost dv = dir@;
            proof {
                assert(rest@ =~= orig.subrange(i + 1, n as int));
            }
            let ghost before = self@;
            let id = self.register_plugin(metadata, dir.as_str());
            proof {
                let step = bviews.skip(i as int);
                assert(bviews[i as int] == (orig[i as int].0@, orig[i as int].1@));
                assert(step[0] == (mv, dv));
                assert(step.drop_first() =~= bviews.skip(i + 1));
                assert(self@ =~= spec_apply_upsert(before, id@, spec_instance_of(mv, dv)));
                assert(spec_scan_applied(before, step) == spec_scan_applied(
                    self@,
                    bviews.skip(i + 1),
                ));
            }
            ids.push(id);
            i = i + 1;
        }
        proof {
            assert(bviews.skip(n as int) =~= Seq::<(MetadataView, Seq<char>)>::empty());
        }
        ids
    }
}

impl PluginManager {
    /// Compute what the host must open to load `id`: the module file
    /// `{plugin_dir}/{library_name}.{ext}` (where `ext` is the host
    /// platform's dynamic-module extension) and the configured entry
    /// symbol. Fails with `NotFound` for an unknown id and with
    /// `InvalidState` when the instance is already running.
    pub fn load_path(&self, id: &PluginId, ext: &str) -> (r: Result<LoadPlan, RuntimeError>)
        requires
            self@.wf(),
        ensures
            ({
                let v = self@;
                if !v.has_id(id@) {
                    r == Err::<LoadPlan, RuntimeError>(RuntimeError::NotFound)
                } else if !v.inst_of(id@).status.spec_is_loadable() {
                    r == Err::<LoadPlan, RuntimeError>(RuntimeError::InvalidState)
                } else {
                    match r {
                        Ok(plan) => plan.library_path@ == spec_library_path(
                            v.inst_of(id@).config,
                            ext@,
                        ) && plan.entry_point@ == v.inst_of(id@).config.entry_point,
                        Err(_) => false,
                    }
                }
            }),
    {
        match self.find(id) {
            None => Err(RuntimeError::NotFound),
            Some(i) => {
                proof {
                    lemma_idx_of_unique(self@, id@, i as int);
                }
                let inst = &self.plugins[i].1;
                if !inst.status.is_loadable() {
                    return Err(RuntimeError::InvalidState);
                }
                let mut library_path = inst.config.plugin_dir.clone();
                library_path.append("/");
                library_path.append(inst.config.library_name.as_str());
                library_path.append(".");
                library_path.append(ext);
                let entry_point = inst.config.entry_point.clone();
                Ok(LoadPlan { library_path, entry_point })
            },
        }
    }

    /// Apply the host-reported outcome of a load attempt. Only an
    /// instance that exists and is not already running may complete a
    /// load; a `Running` instance is rejected with `InvalidState` and
    /// left untouched. When the module was opened and its factory ran,
    /// the instance keeps the (freshly drawn) handle token either way,
    /// so a later unload can still release the module; the status
    /// becomes `Running` on a successful initialization and `Failed`
    /// otherwise, and only `Running` counts as a successful load.
    pub fn load_plugin(&mut self, id: &PluginId, init: ModuleInitOutcome) -> (r: Result<
        (),
        RuntimeError,
    >)
        requires
            old(self)@.wf(),
            old(self)@.next_handle < u64::MAX,
        ensures
            final(self)@.wf(),
            ({
                let pre = old(self)@;
                let post = final(self)@;
                if !pre.has_id(id@) {
                    post == pre && r == Err::<(), RuntimeError>(RuntimeError::NotFound)
                } else if !pre.inst_of(id@).status.spec_is_loadable() {
                    post == pre && r == Err::<(), RuntimeError>(RuntimeError::InvalidState)
                } else {
                    match init {
                        ModuleInitOutcome::LibraryMissing => post == pre && r == Err::<
                            (),
                            RuntimeError,
                        >(RuntimeError::NotFound),
                        ModuleInitOutcome::OpenFailed(m) => post == pre && r == Err::<
                            (),
                            RuntimeError,
                        >(RuntimeError::ModuleLoadError(m)),
                        ModuleInitOutcome::SymbolNotFound(m) => post == pre && r == Err::<
                            (),
                            RuntimeError,
                        >(RuntimeError::ModuleLoadError(m)),
                        ModuleInitOutcome::Initialized(ok) => spec_load_applied(pre, post, id@, ok)
                            && r == (if ok {
                            Ok::<(), RuntimeError>(())
                        } else {
                            Err::<(), RuntimeError>(RuntimeError::PluginInitError)
                        }),
                    }
                }
            }),
    {
        let ghost pre = self@;
        match self.find(id) {
            None => Err(RuntimeError::NotFound),
            Some(i) => {
                proof {
                    lemma_idx_of_unique(pre, id@, i as int);
                }
                if !self.plugins[i].1.status.is_loadable() {
                    return Err(RuntimeError::InvalidState);
                }
                match init {
                    ModuleInitOutcome::LibraryMissing => Err(RuntimeError::NotFound),
                    ModuleInitOutcome::OpenFailed(m) => Err(RuntimeError::ModuleLoadError(m)),
                    ModuleInitOutcome::SymbolNotFound(m) => Err(RuntimeError::ModuleLoadError(m)),
                    ModuleInitOutcome::Initialized(ok) => {
                        let (pid, inst) = self.plugins.remove(i);
                        let PluginInstance { metadata, config, status: _, handle: _ } = inst;
                        let token = self.next_handle;
                        self.next_handle = self.next_handle + 1;
                        let status = if ok {
                            PluginStatus::Running
                        } else {
                            PluginStatus::Failed
                        };
                        let updated = PluginInstance {
                            metadata,
                            config,
                            status,
                            handle: Some(PluginHandle { token }),
                        };
                        self.plugins.insert(i, (pid, updated));
                        proof {
                            assert(self@.entries =~= pre.entries.update(
                                i as int,
                                (
                                    id@,
                                    InstanceView {
                                        status,
                                        handle: Some(pre.next_handle),
                                        ..pre.inst_of(id@)
                                    },
                                ),
                            ));
                            assert(spec_load_applied(pre, self@, id@, ok));
                            assert(self@.wf());
                        }
                        if ok {
                            Ok(())
                        } else {
                            Err(RuntimeError::PluginInitError)
                        }
                    },
                }
            },
        }
    }

    /// First unload step. On an active instance this takes the handle
    /// out and returns it, so that the host can run the plugin's
    /// cleanup and release the module; an active instance without a
    /// handle is set straight to `Unloaded`. On an unknown id, or an
    /// instance that is `Unloaded`, `Registered` or `Failed`, this is
    /// a no-op: nothing changes and no cleanup is owed.
    pub fn begin_unload(&mut self, id: &PluginId) -> (r: Option<PluginHandle>)
        requires
            old(self)@.wf(),
        ensures
            final(self)@.wf(),
            ({
                let pre = old(self)@;
                let post = final(self)@;
                if !pre.has_id(id@) || !pre.inst_of(id@).status.spec_is_active() {
                    post == pre && r is None
                } else {
                    match pre.inst_of(id@).handle {
                        Some(t) => spec_handle_taken(pre, post, id@) && (match r {
                            Some(h) => h@ == t,
                            None => false,
                        }),
                        None => spec_status_set(pre, post, id@, PluginStatus::Unloaded)
                            && r is None,
                    }
                }
            }),
    {
        let ghost pre = self@;
        match self.find(id) {
            None => None,
            Some(i) => {
                proof {
                    lemma_idx_of_unique(pre, id@, i as int);
                }
                if !self.plugins[i].1.status.is_active() {
                    return None;
                }
                let (pid, inst) = self.plugins.remove(i);
                let PluginInstance { metadata, config, status, handle } = inst;
                match handle {
                    Some(h) => {
                        let updated = PluginInstance { metadata, config, status, handle: None };
                        self.plugins.insert(i, (pid, updated));
                        proof {
                            assert(self@.entries =~= pre.entries.update(
                                i as int,
                                (id@, InstanceView { handle: None, ..pre.inst_of(id@) }),
                            ));
                            assert(self@.wf());
                        }
                        Some(h)
                    },
                    None => {
                        let updated = PluginInstance {
                            metadata,
                            config,
                            status: PluginStatus::Unloaded,
                            handle: None,
                        };
                        self.plugins.insert(i, (pid, updated));
                        proof {
                            assert(self@.entries =~= pre.entries.update(
                                i as int,
                                (
                                    id@,
                                    InstanceView {
                                        status: PluginStatus::Unloaded,
                                        ..pre.inst_of(id@)
                                    },
                                ),
                            ));
                            assert(self@.wf());
                        }
                        None
                    },
                }
            },
        }
    }

    /// Second unload step, after the host ran the plugin's cleanup on
    /// the handle that [`Self::begin_unload`] returned. A cleanup
    /// failure is propagated (the module is released by the host
    /// regardless, since the handle has already left the registry) and
    /// the status is left as it is; on success the instance becomes
    /// `Unloaded`.
    pub fn finish_unload(&mut self, id: &PluginId, cleanup: Result<(), String>) -> (r: Result<
        (),
        RuntimeError,
    >)
        requires
            old(self)@.wf(),
        ensures
            final(self)@.wf(),
            ({
                let pre = old(self)@;
                let post = final(self)@;
                match cleanup {
                    Err(m) => post == pre && r == Err::<(), RuntimeError>(
                        RuntimeError::PluginError(m),
                    ),
                    Ok(_) => if pre.has_id(id@) {
                        spec_status_set(pre, post, id@, PluginStatus::Unloaded) && r is Ok
                    } else {
                        post == pre && r == Err::<(), RuntimeError>(RuntimeError::NotFound)
                    },
                }
            }),
    {
        let ghost pre = self@;
        match cleanup {
            Err(m) => Err(RuntimeError::PluginError(m)),
            Ok(_) => match self.find(id) {
                None => Err(RuntimeError::NotFound),
                Some(i) => {
                    proof {
                        lemma_idx_of_unique(pre, id@, i as int);
                    }
                    let (pid, inst) = self.plugins.remove(i);
                    let PluginInstance { metadata, config, status: _, handle } = inst;
                    let updated = PluginInstance {
                        metadata,
                        config,
                        status: PluginStatus::Unloaded,
                        handle,
                    };
                    self.plugins.insert(i, (pid, updated));
                    proof {
                        assert(self@.entries =~= pre.entries.update(
                            i as int,
                            (
                                id@,
                                InstanceView { status: PluginStatus::Unloaded, ..pre.inst_of(id@) },
                            ),
                        ));
                        assert(self@.wf());
                    }
                    Ok(())
                },
            },
        }
    }

    /// Decide whether a call may be dispatched to `id`, and to which
    /// handle: the instance must exist (`NotFound` otherwise), be
    /// `Running` (`InvalidState` otherwise) and hold a handle
    /// (`HandleMissing` otherwise, a defensive check).
    pub fn prepare_call(&self, id: &PluginId) -> (r: Result<u64, RuntimeError>)
        requires
            self@.wf(),
        ensures
            ({
                let v = self@;
                if !v.has_id(id@) {
                    r == Err::<u64, RuntimeError>(RuntimeError::NotFound)
                } else if !v.inst_of(id@).status.spec_is_active() {
                    r == Err::<u64, RuntimeError>(RuntimeError::InvalidState)
                } else {
                    match v.inst_of(id@).handle {
                        Some(t) => r == Ok::<u64, RuntimeError>(t),
                        None => r == Err::<u64, RuntimeError>(RuntimeError::HandleMissing),
                    }
                }
            }),
    {
        match self.find(id) {
            None => Err(RuntimeError::NotFound),
            Some(i) => {
                proof {
                    lemma_idx_of_unique(self@, id@, i as int);
                }
                let inst = &self.plugins[i].1;
                if !inst.status.is_active() {
                    return Err(RuntimeError::InvalidState);
                }
                match &inst.handle {
                    Some(h) => Ok(h.token),
                    None => Err(RuntimeError::HandleMissing),
                }
            },
        }
    }

    /// Snapshot of every registered plugin's id and metadata, in
    /// insertion order.
    pub fn list_plugins(&self) -> (r: Vec<(PluginId, PluginMetadata)>)
        ensures
            r@.len() == self@.entries.len(),
            forall|i: int| 0 <= i < r@.len() ==> #[trigger] r@[i].0@ == self@.entries[i].0
                && r@[i].1@ == self@.entries[i].1.metadata,
    {
        let mut r: Vec<(PluginId, PluginMetadata)> = Vec::new();
        let mut i: usize = 0;
        while i < self.plugins.len()
            invariant
                i <= self.plugins.len(),
                self@.entries.len() == self.plugins@.len(),
                forall|k: int| 0 <= k < self.plugins@.len() ==> #[trigger] self@.entries[k]
                    == (self.plugins@[k].0@, self.plugins@[k].1@),
                r@.len() == i as nat,
                forall|k: int| 0 <= k < i ==> #[trigger] r@[k].0@ == self@.entries[k].0
                    && r@[k].1@ == self@.entries[k].1.metadata,
            decreases self.plugins.len() - i,
        {
            let entry = &self.plugins[i];
            r.push((entry.0.clone(), entry.1.metadata.clone()));
            i = i + 1;
        }
        r
    }

    /// Snapshot of one instance: its metadata, resolved configuration
    /// and current status, or nothing for an unknown id.
    pub fn get_plugin(&self, id: &PluginId) -> (r: Option<PluginInfo>)
        requires
            self@.wf(),
        ensures
            ({
                let v = self@;
                match r {
                    Some(info) => v.has_id(id@) && info.metadata@ == v.inst_of(id@).metadata
                        && info.config@ == v.inst_of(id@).config && info.status == v.inst_of(
                        id@,
                    ).status,
                    None => !v.has_id(id@),
                }
            }),
    {
        match self.find(id) {
            None => None,
            Some(i) => {
                proof {
                    lemma_idx_of_unique(self@, id@, i as int);
                }
                let inst = &self.plugins[i].1;
                Some(
                    PluginInfo {
                        metadata: inst.metadata.clone(),
                        config: inst.config.clone(),
                        status: inst.status,
                    },
                )
            },
        }
    }

    /// Shutdown sweep: take every present handle out of the registry,
    /// in order, so the host can run each plugin's cleanup best-effort.
    /// Statuses are left as they are; the process is about to end.
    pub fn cleanup(&mut self) -> (r: Vec<PluginHandle>)
        requires
            old(self)@.wf(),
        ensures
            final(self)@.wf(),
            final(self)@.next_handle == old(self)@.next_handle,
            final(self)@.entries.len() == old(self)@.entries.len(),
            forall|i: int| 0 <= i < final(self)@.entries.len()
                ==> #[trigger] final(self)@.entries[i] == (
                old(self)@.entries[i].0,
                InstanceView { handle: None, ..old(self)@.entries[i].1 },
            ),
            r@.map_values(|h: PluginHandle| h@) == spec_handles_of(old(self)@.entries),
    {
        let ghost pre = self@;
        let mut r: Vec<PluginHandle> = Vec::new();
        let mut i: usize = 0;
        while i < self.plugins.len()
            invariant
                i <= self.plugins.len(),
                self@.next_handle == pre.next_handle,
                self@.entries.len() == pre.entries.len(),
                self.plugins@.len() == pre.entries.len(),
                forall|k: int| 0 <= k < i ==> #[trigger] self@.entries[k] == (
                    pre.entries[k].0,
                    InstanceView { handle: None, ..pre.entries[k].1 },
                ),
                forall|k: int| i <= k < pre.entries.len() ==> #[trigger] self@.entries[k]
                    == pre.entries[k],
                r@.map_values(|h: PluginHandle| h@) == spec_handles_of(
                    pre.entries.take(i as int),
                ),
            decreases self.plugins.len() - i,
        {
            let ghost entries_before = self@.entries;
            let (pid, inst) = self.plugins.remove(i);
            let PluginInstance { metadata, config, status, handle } = inst;
            let updated = PluginInstance { metadata, config, status, handle: None };
            self.plugins.insert(i, (pid, updated));
            proof {
                assert(self@.entries =~= entries_before.update(
                    i as int,
                    (
                        entries_before[i as int].0,
                        InstanceView { handle: None, ..entries_before[i as int].1 },
                    ),
                ));
            }
            match handle {
                Some(h) => {
                    r.push(h);
                },
                None => {},
            }
            proof {
                assert(pre.entries.take(i + 1).drop_last() =~= pre.entries.take(i as int));
                assert(pre.entries.take(i + 1).last() == pre.entries[i as int]);
                assert(r@.map_values(|h: PluginHandle| h@) =~= spec_handles_of(
                    pre.entries.take(i + 1),
                ));
            }
            i = i + 1;
        }
        proof {
            assert(pre.entries.take(pre.entries.len() as int) =~= pre.entries);
        }
        r
    }
}

/// The handle tokens present in `s`, in entry order.
pub open spec fn spec_handles_of(s: Seq<(Seq<char>, InstanceView)>) -> Seq<u64>
    decreases s.len(),
{
    if s.len() == 0 {
        Seq::empty()
    } else {
        spec_handles_of(s.drop_last()) + match s.last().1.handle {
            Some(t) => seq![t],
            None => Seq::empty(),
        }
    }
}

/// Updating one entry in place, key kept, preserves well-formedness as
/// long as the new handle (if any) is below the new counter and the
/// counter does not go backwards.
proof fn lemma_update_keeps_wf(pre: ManagerView, post: ManagerView, i: int, inst: InstanceView)
    requires
        pre.wf(),
        0 <= i < pre.entries.len(),
        post.entries == pre.entries.update(i, (pre.entries[i].0, inst)),
        match inst.handle {
            Some(t) => t < post.next_handle,
            None => true,
        },
        post.next_handle >= pre.next_handle,
    ensures
        post.wf(),
{
    assert forall|a: int, b: int| 0 <= a < b < post.entries.len() implies post.entries[a].0
        != post.entries[b].0 by {
        assert(pre.entries[a].0 != pre.entries[b].0);
    }
}

/// Registering the same instance under the same id a second time leaves
/// the registry exactly as the first registration left it: a rescan
/// overwrites in place, it never duplicates an entry.
pub proof fn lemma_rescan_overwrites(
    pre: ManagerView,
    mid: ManagerView,
    post: ManagerView,
    id: Seq<char>,
    inst: InstanceView,
)
    requires
        pre.wf(),
        inst.handle is None,
        spec_upserted(pre, mid, id, inst),
        spec_upserted(mid, post, id, inst),
    ensures
        post == mid,
        mid.entries.len() == if pre.has_id(id) {
            pre.entries.len() as int
        } else {
            pre.entries.len() + 1int
        },
{
    lemma_upsert_wf(pre, mid, id, inst);
    if pre.has_id(id) {
        let i = pre.idx_of(id);
        assert(0 <= i < pre.entries.len() && pre.entries[i].0 == id);
        lemma_idx_of_unique(mid, id, i);
        assert(post.entries =~= mid.entries);
        assert(post =~= mid);
    } else {
        let i = pre.entries.len() as int;
        assert(mid.entries[i].0 == id);
        lemma_idx_of_unique(mid, id, i);
        assert(post.entries =~= mid.entries);
        assert(post =~= mid);
    }
}

/// A reload drives an active instance through `Running → Unloaded →`
/// then `Running` (or `Failed`, when reinitialization fails), and the
/// handle after the reload is freshly drawn: it is never the handle
/// the instance held before the reload.
pub proof fn lemma_reload_fresh_handle(
    pre: ManagerView,
    mid1: ManagerView,
    mid2: ManagerView,
    post: ManagerView,
    id: Seq<char>,
    prior: u64,
    ok: bool,
)
    requires
        pre.wf(),
        pre.has_id(id),
        pre.inst_of(id).status == PluginStatus::Running,
        pre.inst_of(id).handle == Some(prior),
        spec_handle_taken(pre, mid1, id),
        spec_status_set(mid1, mid2, id, PluginStatus::Unloaded),
        spec_load_applied(mid2, post, id, ok),
    ensures
        mid2.inst_of(id).status == PluginStatus::Unloaded,
        post.inst_of(id).status == (if ok {
            PluginStatus::Running
        } else {
            PluginStatus::Failed
        }),
        post.inst_of(id).handle is Some,
        post.inst_of(id).handle != Some(prior),
{
    let i = pre.idx_of(id);
    assert(0 <= i < pre.entries.len() && pre.entries[i].0 == id);
    assert(prior < pre.next_handle);
    lemma_update_keeps_wf(pre, mid1, i, InstanceView { handle: None, ..pre.inst_of(id) });
    lemma_idx_of_unique(mid1, id, i);
    lemma_update_keeps_wf(mid1, mid2, i, InstanceView { status: PluginStatus::Unloaded, ..mid1.inst_of(id) });
    lemma_idx_of_unique(mid2, id, i);
    let loaded = InstanceView {
        status: if ok {
            PluginStatus::Running
        } else {
            PluginStatus::Failed
        },
        handle: Some(mid2.next_handle),
        ..mid2.inst_of(id)
    };
    lemma_update_keeps_wf(mid2, post, i, loaded);
    lemma_idx_of_unique(post, id, i);
    assert(post.inst_of(id) == loaded);
    assert(mid2.next_handle == pre.next_handle);
}

/// An upsert with a handle-free instance preserves well-formedness.
proof fn lemma_upsert_wf(pre: ManagerView, post: ManagerView, id: Seq<char>, inst: InstanceView)
    requires
        pre.wf(),
        inst.handle is None,
        spec_upserted(pre, post, id, inst),
    ensures
        post.wf(),
{
    if pre.has_id(id) {
        let i = pre.idx_of(id);
        assert(0 <= i < pre.entries.len() && pre.entries[i].0 == id);
        assert forall|a: int, b: int| 0 <= a < b < post.entries.len() implies post.entries[a].0
            != post.entries[b].0 by {
            assert(pre.entries[a].0 != pre.entries[b].0);
        }
    }
}

} // verus!
