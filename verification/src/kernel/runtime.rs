//! The kernel core: configuration, lifecycle and the plugin registry with
//! per-plugin resource quotas.
//!
//! The kernel's decisions live here; the event loop, the message bus and the
//! shutdown channel that drive them run around it.

use vstd::prelude::*;
use crate::clock::{duration_from_millis, duration_from_secs, instant_now, milliseconds, seconds};
use crate::kernel::error::{ErrorKind, MathCoreError, ResourceType};
use crate::kernel::sandbox::Sandbox;
use crate::strmap::StrMap;
use crate::text::to_owned_string;

verus! {

/// Limits and timing of a kernel.
#[derive(Debug, Clone, Copy)]
pub struct KernelConfig {
    pub max_plugin_memory: u64,
    pub max_execution_time: u64,
    pub max_plugins: usize,
    pub sandbox_enabled: bool,
    pub shutdown_timeout: std::time::Duration,
    pub tick_interval: std::time::Duration,
}

impl Default for KernelConfig {
    /// 256 MiB per plugin, 30 s of execution, 64 plugins, sandboxing on, a
    /// 10 s shutdown timeout and a 100 ms tick.
    fn default() -> (r: Self)
        ensures
            r.max_plugin_memory == 256 * 1024 * 1024,
            r.max_execution_time == 30_000,
            r.max_plugins == 64,
            r.sandbox_enabled,
            r.shutdown_timeout == seconds(10),
            r.tick_interval == milliseconds(100),
    {
        KernelConfig {
            max_plugin_memory: 256 * 1024 * 1024,
            max_execution_time: 30_000,
            max_plugins: 64,
            sandbox_enabled: true,
            shutdown_timeout: duration_from_secs(10),
            tick_interval: duration_from_millis(100),
        }
    }
}

/// A plugin's description, as plain values.
pub struct PluginMetadataView {
    pub id: Seq<char>,
    pub version: Seq<char>,
    pub name: Seq<char>,
    pub description: Option<Seq<char>>,
}

/// A plugin's description.
#[derive(Debug)]
pub struct PluginMetadata {
    pub id: String,
    pub version: String,
    pub name: String,
    pub description: Option<String>,
}

impl View for PluginMetadata {
    type V = PluginMetadataView;

    open spec fn view(&self) -> PluginMetadataView {
        PluginMetadataView {
            id: self.id@,
            version: self.version@,
            name: self.name@,
            description: match self.description {
                Some(d) => Some(d@),
                None => None,
            },
        }
    }
}

impl Clone for PluginMetadata {
    /// A copy with the same texts.
    fn clone(&self) -> (r: Self)
        ensures
            r@ == self@,
    {
        PluginMetadata {
            id: self.id.clone(),
            version: self.version.clone(),
            name: self.name.clone(),
            description: match &self.description {
                Some(d) => Some(d.clone()),
                None => None,
            },
        }
    }
}

/// Lifecycle of a plugin.
#[derive(Debug, Clone, Copy, PartialEq, Eq, Structural)]
pub enum PluginState {
    Loading,
    Loaded,
    Running,
    Stopped,
    Failed,
}

/// A registered plugin, as plain values: its description, its state and
/// whether it runs in a sandbox.
pub struct PluginInfoView {
    pub metadata: PluginMetadataView,
    pub state: PluginState,
    pub sandboxed: bool,
}

/// A registered plugin.
#[derive(Debug)]
pub struct PluginInfo {
    pub metadata: PluginMetadata,
    pub state: PluginState,
    pub loaded_at: std::time::Instant,
    pub sandbox: Option<Sandbox>,
}

impl View for PluginInfo {
    type V = PluginInfoView;

    open spec fn view(&self) -> PluginInfoView {
        PluginInfoView { metadata: self.metadata@, state: self.state, sandboxed: self.sandbox is Some }
    }
}

impl Clone for PluginInfo {
    /// A copy with the same description, state, load time and sandbox.
    fn clone(&self) -> (r: Self)
        ensures
            r@ == self@,
            r.loaded_at == self.loaded_at,
    {
        PluginInfo {
            metadata: self.metadata.clone(),
            state: self.state,
            loaded_at: self.loaded_at,
            sandbox: match &self.sandbox {
                Some(s) => Some(s.clone()),
                None => None,
            },
        }
    }
}

/// Resources a plugin has used.
#[derive(Debug, Clone, Copy, PartialEq, Eq, Structural)]
pub struct ResourceUsage {
    pub memory_used: u64,
    pub cpu_time_used: u64,
    pub executions: u64,
}

impl Default for ResourceUsage {
    /// Nothing used.
    fn default() -> (r: Self)
        ensures
            r == (ResourceUsage { memory_used: 0, cpu_time_used: 0, executions: 0 }),
    {
        ResourceUsage { memory_used: 0, cpu_time_used: 0, executions: 0 }
    }
}

/// Resources a plugin may use.
#[derive(Debug, Clone, Copy, PartialEq, Eq, Structural)]
pub struct ResourceQuota {
    pub max_memory: u64,
    pub max_cpu_time: u64,
    pub max_executions: u64,
}

impl Default for ResourceQuota {
    /// 256 MiB, 60 s of CPU time and 1000 executions.
    fn default() -> (r: Self)
        ensures
            r.max_memory == 256 * 1024 * 1024,
            r.max_cpu_time == 60_000,
            r.max_executions == 1000,
    {
        ResourceQuota { max_memory: 256 * 1024 * 1024, max_cpu_time: 60_000, max_executions: 1000 }
    }
}

/// The first limit a usage goes over: memory before CPU time. The number
/// of executions is not checked.
pub open spec fn exceeded_resource(q: ResourceQuota, u: ResourceUsage) -> Option<ResourceType> {
    if u.memory_used > q.max_memory {
        Some(ResourceType::Memory)
    } else if u.cpu_time_used > q.max_cpu_time {
        Some(ResourceType::Cpu)
    } else {
        None
    }
}

impl ResourceQuota {
    /// The first limit that the usage goes over, if any.
    pub fn is_exceeded(&self, usage: &ResourceUsage) -> (r: Option<ResourceType>)
        ensures
            r == exceeded_resource(*self, *usage),
    {
        if usage.memory_used > self.max_memory {
            return Some(ResourceType::Memory);
        }
        if usage.cpu_time_used > self.max_cpu_time {
            return Some(ResourceType::Cpu);
        }
        None
    }
}

/// Lifecycle of the kernel.
#[derive(Debug, Clone, Copy, PartialEq, Eq, Structural)]
pub enum KernelState {
    Created,
    Running,
    ShuttingDown,
    Stopped,
}

/// Counters of the kernel.
#[derive(Debug, Clone, Copy, PartialEq, Eq, Structural)]
pub struct KernelStats {
    pub uptime_seconds: u64,
    pub total_executions: u64,
    pub failed_executions: u64,
    pub messages_processed: u64,
}

impl Default for KernelStats {
    /// All counters at zero.
    fn default() -> (r: Self)
        ensures
            r == (KernelStats {
                uptime_seconds: 0,
                total_executions: 0,
                failed_executions: 0,
                messages_processed: 0,
            }),
    {
        KernelStats { uptime_seconds: 0, total_executions: 0, failed_executions: 0, messages_processed: 0 }
    }
}

/// A reading of the kernel's counters.
#[derive(Debug, Clone, Copy, PartialEq, Eq, Structural)]
pub struct KernelStatsSnapshot {
    pub uptime_seconds: u64,
    pub total_executions: u64,
    pub failed_executions: u64,
    pub messages_processed: u64,
    pub plugins_loaded: usize,
}

/// The signal that stops the kernel's event loop.
#[derive(Debug)]
pub struct ShutdownSignal;

/// An error of the given kind whose message is `m`.
pub open spec fn invalid_state(e: MathCoreError, m: Seq<char>) -> bool {
    e.spec_kind() matches ErrorKind::InvalidState(s) && s@ == m
}

/// The quota a plugin receives when it is loaded.
pub open spec fn initial_quota(c: KernelConfig) -> ResourceQuota {
    ResourceQuota { max_memory: c.max_plugin_memory, max_cpu_time: c.max_execution_time, max_executions: u64::MAX }
}

/// The kernel: its configuration, lifecycle state, registered plugins and
/// their quotas, and counters.
pub struct Kernel {
    config: KernelConfig,
    state: KernelState,
    bus_ready: bool,
    running: bool,
    plugins: StrMap<PluginInfo>,
    resource_quotas: StrMap<ResourceQuota>,
    stats: KernelStats,
}

/// `after` is `before` with a plugin registered: its description, the
/// `Loaded` state, a sandbox when asked for, and the initial quota.
pub open spec fn load_effect(before: Kernel, after: Kernel, meta: PluginMetadataView, sandboxed: bool) -> bool {
    &&& after.plugins() == before.plugins().insert(
        meta.id,
        PluginInfoView { metadata: meta, state: PluginState::Loaded, sandboxed },
    )
    &&& after.quotas() == before.quotas().insert(meta.id, initial_quota(before.spec_config()))
    &&& after.same_lifecycle(before)
}

/// `after` is `before` with the plugin `id` and its quota removed.
pub open spec fn unload_effect(before: Kernel, after: Kernel, id: Seq<char>) -> bool {
    &&& after.plugins() == before.plugins().remove(id)
    &&& after.quotas() == before.quotas().remove(id)
    &&& after.same_lifecycle(before)
}

impl Kernel {
    /// The configuration.
    pub closed spec fn spec_config(&self) -> KernelConfig {
        self.config
    }

    /// The lifecycle state.
    pub closed spec fn spec_state(&self) -> KernelState {
        self.state
    }

    /// Whether `init` has succeeded (the message bus exists).
    pub closed spec fn spec_bus_ready(&self) -> bool {
        self.bus_ready
    }

    /// Whether the event loop has been entered.
    pub closed spec fn spec_running(&self) -> bool {
        self.running
    }

    /// The counters.
    pub closed spec fn spec_stats(&self) -> KernelStats {
        self.stats
    }

    /// The registered plugins by id.
    pub closed spec fn plugins(&self) -> Map<Seq<char>, PluginInfoView> {
        self.plugins@.map_values(|p: PluginInfo| p@)
    }

    /// The resource quotas by plugin id.
    pub closed spec fn quotas(&self) -> Map<Seq<char>, ResourceQuota> {
        self.resource_quotas@
    }

    /// Configuration, lifecycle and counters are those of `other`.
    pub open spec fn same_lifecycle(&self, other: Kernel) -> bool {
        &&& self.spec_config() == other.spec_config()
        &&& self.spec_state() == other.spec_state()
        &&& self.spec_bus_ready() == other.spec_bus_ready()
        &&& self.spec_running() == other.spec_running()
        &&& self.spec_stats() == other.spec_stats()
    }

    /// The same plugins and quotas as `other`.
    pub open spec fn same_registry(&self, other: Kernel) -> bool {
        &&& self.plugins() == other.plugins()
        &&& self.quotas() == other.quotas()
    }

    /// The registry and configuration of `other`, with the given lifecycle
    /// state, bus, loop flag and counters.
    pub open spec fn agrees(
        &self,
        other: Kernel,
        state: KernelState,
        bus_ready: bool,
        running: bool,
        stats: KernelStats,
    ) -> bool {
        &&& self.same_registry(other)
        &&& self.spec_config() == other.spec_config()
        &&& self.spec_state() == state
        &&& self.spec_bus_ready() == bus_ready
        &&& self.spec_running() == running
        &&& self.spec_stats() == stats
    }

    /// Each plugin is filed under its own id and has exactly one quota, and
    /// there are no more plugins than the configuration allows.
    pub closed spec fn wf(&self) -> bool {
        &&& self.plugins.wf()
        &&& self.resource_quotas.wf()
        &&& self.resource_quotas@.dom() == self.plugins@.dom()
        &&& self.plugins@.dom().len() <= self.config.max_plugins
        &&& forall|id: Seq<char>| #[trigger] self.plugins@.contains_key(id) ==> self.plugins@[id].metadata.id@ == id
    }

    /// The registry never holds more plugins than the configuration allows,
    /// every plugin has a quota, and each is filed under its own id.
    pub proof fn lemma_registry_bounds(&self)
        requires
            self.wf(),
        ensures
            self.plugins().dom().finite(),
            self.plugins().dom().len() <= self.spec_config().max_plugins,
            self.quotas().dom() == self.plugins().dom(),
            forall|id: Seq<char>| #[trigger] self.plugins().contains_key(id) ==> self.plugins()[id].metadata.id == id,
    {
        self.plugins.lemma_entries();
        assert(self.plugins().dom() =~= self.plugins@.dom());
    }

    /// A kernel with the default configuration.
    pub fn new() -> (r: Self)
        ensures
            r.wf(),
            r.spec_state() == KernelState::Created,
            !r.spec_bus_ready(),
            !r.spec_running(),
            r.plugins() == Map::<Seq<char>, PluginInfoView>::empty(),
            r.quotas() == Map::<Seq<char>, ResourceQuota>::empty(),
            r.spec_stats() == (KernelStats {
                uptime_seconds: 0,
                total_executions: 0,
                failed_executions: 0,
                messages_processed: 0,
            }),
            r.spec_config().max_plugins == 64,
    {
        Kernel::with_config(KernelConfig::default())
    }

    /// A kernel with the given configuration, created and empty.
    pub fn with_config(config: KernelConfig) -> (r: Self)
        ensures
            r.wf(),
            r.spec_config() == config,
            r.spec_state() == KernelState::Created,
            !r.spec_bus_ready(),
            !r.spec_running(),
            r.plugins() == Map::<Seq<char>, PluginInfoView>::empty(),
            r.quotas() == Map::<Seq<char>, ResourceQuota>::empty(),
            r.spec_stats() == (KernelStats {
                uptime_seconds: 0,
                total_executions: 0,
                failed_executions: 0,
                messages_processed: 0,
            }),
    {
        let r = Kernel {
            config,
            state: KernelState::Created,
            bus_ready: false,
            running: false,
            plugins: StrMap::new(),
            resource_quotas: StrMap::new(),
            stats: KernelStats::default(),
        };
        assert(r.plugins() =~= Map::<Seq<char>, PluginInfoView>::empty());
        r
    }

    /// Prepares the kernel once: a second call is an invalid-state error.
    pub fn init(&mut self) -> (r: Result<(), MathCoreError>)
        requires
            old(self).wf(),
        ensures
            final(self).wf(),
            old(self).spec_bus_ready() ==> (r matches Err(e) && invalid_state(e, "Kernel already initialized"@))
                && *final(self) == *old(self),
            !old(self).spec_bus_ready() ==> r is Ok && final(self).agrees(
                *old(self),
                old(self).spec_state(),
                true,
                old(self).spec_running(),
                old(self).spec_stats(),
            ),
    {
        if self.bus_ready {
            return Err(
                MathCoreError::new(ErrorKind::InvalidState(to_owned_string("Kernel already initialized"))),
            );
        }
        self.bus_ready = true;
        Ok(())
    }

    /// Enters the event loop. The loop is marked as entered first; a kernel
    /// already in its loop is refused, and so is one that is neither freshly
    /// created nor stopped.
    pub fn begin_run(&mut self) -> (r: Result<(), MathCoreError>)
        requires
            old(self).wf(),
        ensures
            final(self).wf(),
            final(self).spec_running(),
            final(self).plugins() == old(self).plugins(),
            final(self).quotas() == old(self).quotas(),
            final(self).spec_config() == old(self).spec_config(),
            final(self).spec_bus_ready() == old(self).spec_bus_ready(),
            final(self).spec_stats() == old(self).spec_stats(),
            old(self).spec_running() ==> (r matches Err(e) && e.spec_kind() is CoreAlreadyRunning)
                && final(self).spec_state() == old(self).spec_state(),
            !old(self).spec_running() && old(self).spec_state() != KernelState::Created
                && old(self).spec_state() != KernelState::Stopped ==> (r matches Err(e) && invalid_state(
                e,
                "Kernel cannot run from current state"@,
            )) && final(self).spec_state() == old(self).spec_state(),
            !old(self).spec_running() && (old(self).spec_state() == KernelState::Created
                || old(self).spec_state() == KernelState::Stopped) ==> r is Ok && final(self).spec_state()
                == KernelState::Running,
    {
        let was_running = self.running;
        self.running = true;
        if was_running {
            return Err(MathCoreError::new(ErrorKind::CoreAlreadyRunning));
        }
        if self.state != KernelState::Created && self.state != KernelState::Stopped {
            return Err(
                MathCoreError::new(
                    ErrorKind::InvalidState(to_owned_string("Kernel cannot run from current state")),
                ),
            );
        }
        self.state = KernelState::Running;
        Ok(())
    }

    /// Leaves the event loop: the kernel is stopped and no longer running.
    pub fn end_run(&mut self)
        requires
            old(self).wf(),
        ensures
            final(self).wf(),
            final(self).agrees(
                *old(self),
                KernelState::Stopped,
                old(self).spec_bus_ready(),
                false,
                old(self).spec_stats(),
            ),
    {
        self.state = KernelState::Stopped;
        self.running = false;
    }

    /// One tick of the event loop: the uptime counter advances (wrapping).
    pub fn process_tick(&mut self)
        requires
            old(self).wf(),
        ensures
            final(self).wf(),
            final(self).agrees(
                *old(self),
                old(self).spec_state(),
                old(self).spec_bus_ready(),
                old(self).spec_running(),
                KernelStats {
                    uptime_seconds: old(self).spec_stats().uptime_seconds.wrapping_add(1),
                    ..old(self).spec_stats()
                },
            ),
    {
        self.stats.uptime_seconds = self.stats.uptime_seconds.wrapping_add(1);
    }

    /// Starts shutting down a running kernel; any other is not running.
    pub fn begin_shutdown(&mut self) -> (r: Result<(), MathCoreError>)
        requires
            old(self).wf(),
        ensures
            final(self).wf(),
            old(self).spec_state() != KernelState::Running ==> (r matches Err(e) && e.spec_kind() is CoreNotRunning)
                && *final(self) == *old(self),
            old(self).spec_state() == KernelState::Running ==> r is Ok && final(self).agrees(
                *old(self),
                KernelState::ShuttingDown,
                old(self).spec_bus_ready(),
                old(self).spec_running(),
                old(self).spec_stats(),
            ),
    {
        if self.state != KernelState::Running {
            return Err(MathCoreError::new(ErrorKind::CoreNotRunning));
        }
        self.state = KernelState::ShuttingDown;
        Ok(())
    }

    /// Finishes a shutdown: every plugin is unloaded, the bus is released and
    /// the kernel is stopped.
    pub fn finish_shutdown(&mut self) -> (r: Result<(), MathCoreError>)
        requires
            old(self).wf(),
        ensures
            final(self).wf(),
            r is Ok,
            final(self).plugins().dom().is_empty(),
            final(self).quotas().dom().is_empty(),
            final(self).spec_state() == KernelState::Stopped,
            !final(self).spec_bus_ready(),
            final(self).spec_running() == old(self).spec_running(),
            final(self).spec_config() == old(self).spec_config(),
            final(self).spec_stats() == old(self).spec_stats(),
    {
        self.unload_all_plugins();
        self.bus_ready = false;
        self.state = KernelState::Stopped;
        Ok(())
    }

    fn unload_all_plugins(&mut self)
        requires
            old(self).wf(),
        ensures
            final(self).wf(),
            final(self).plugins().dom().is_empty(),
            final(self).quotas().dom().is_empty(),
            final(self).same_lifecycle(*old(self)),
    {
        proof {
            self.plugins.lemma_entries();
        }
        while self.plugins.len() > 0
            invariant
                self.wf(),
                self.same_lifecycle(*old(self)),
            decreases self.plugins.entry_seq().len(),
        {
            proof {
                self.plugins.lemma_entries();
            }
            let id = self.plugins.key_at(0).clone();
            let r = self.unload_plugin(id.as_str());
            proof {
                self.plugins.lemma_entries();
                assert(self.plugins.entry_seq().len() == self.plugins@.dom().len());
            }
        }
        proof {
            self.plugins.lemma_entries();
            assert(self.plugins@.dom().len() == 0);
            assert(self.plugins@.dom() =~= Set::<Seq<char>>::empty());
            assert(self.plugins().dom() =~= Set::<Seq<char>>::empty());
        }
    }

    /// Registers a plugin with the initial quota. Refused, in this order: in a
    /// kernel that is neither running nor freshly created; for an id that is
    /// already registered; when the plugin limit is reached. The plugin gets a
    /// sandbox when asked for or when the configuration enables sandboxing.
    pub fn load_plugin(&mut self, metadata: PluginMetadata, sandbox_enabled: bool) -> (r: Result<
        (),
        MathCoreError,
    >)
        requires
            old(self).wf(),
        ensures
            final(self).wf(),
            ({
                let st = old(self).spec_state();
                let id = metadata@.id;
                if st != KernelState::Running && st != KernelState::Created {
                    (r matches Err(e) && invalid_state(e, "Cannot load plugin in current state"@))
                        && *final(self) == *old(self)
                } else if old(self).plugins().contains_key(id) {
                    (r matches Err(e) && e.spec_kind() matches ErrorKind::PluginAlreadyLoaded(i) && i@ == id)
                        && *final(self) == *old(self)
                } else if old(self).plugins().dom().len() >= old(self).spec_config().max_plugins {
                    (r matches Err(e) && e.spec_kind() matches ErrorKind::ResourceQuotaExceeded(m)
                        && m@ == "Maximum plugins reached"@) && *final(self) == *old(self)
                } else {
                    r is Ok && load_effect(
                        *old(self),
                        *final(self),
                        metadata@,
                        sandbox_enabled || old(self).spec_config().sandbox_enabled,
                    )
                }
            }),
    {
        proof {
            self.plugins.lemma_entries();
            assert(self.plugins().dom() =~= self.plugins@.dom());
        }
        if self.state != KernelState::Running && self.state != KernelState::Created {
            return Err(
                MathCoreError::new(
                    ErrorKind::InvalidState(to_owned_string("Cannot load plugin in current state")),
                ),
            );
        }
        let id = metadata.id.clone();
        if self.plugins.contains_key(id.as_str()) {
            return Err(MathCoreError::new(ErrorKind::PluginAlreadyLoaded(id)));
        }
        if self.plugins.len() >= self.config.max_plugins {
            return Err(
                MathCoreError::new(ErrorKind::ResourceQuotaExceeded(to_owned_string("Maximum plugins reached"))),
            );
        }
        let sandbox = if sandbox_enabled || self.config.sandbox_enabled {
            Some(Sandbox::new())
        } else {
            None
        };
        let ghost meta = metadata@;
        let info = PluginInfo { metadata, state: PluginState::Loaded, loaded_at: instant_now(), sandbox };
        let quota = ResourceQuota {
            max_memory: self.config.max_plugin_memory,
            max_cpu_time: self.config.max_execution_time,
            max_executions: u64::MAX,
        };
        let ghost before = *self;
        self.plugins.insert(id.clone(), info);
        self.resource_quotas.insert(id, quota);
        proof {
            self.plugins.lemma_entries();
            before.plugins.lemma_entries();
            assert(self.plugins@.dom() =~= before.plugins@.dom().insert(meta.id));
            assert(self.plugins() =~= before.plugins().insert(
                meta.id,
                PluginInfoView { metadata: meta, state: PluginState::Loaded, sandboxed: sandbox_enabled || self.config.sandbox_enabled },
            ));
        }
        Ok(())
    }

    /// Removes a registered plugin and its quota; an unknown id is an error.
    pub fn unload_plugin(&mut self, id: &str) -> (r: Result<(), MathCoreError>)
        requires
            old(self).wf(),
        ensures
            final(self).wf(),
            !old(self).plugins().contains_key(id@) ==> (r matches Err(e) && e.spec_kind() matches ErrorKind::PluginNotFound(i)
                && i@ == id@) && *final(self) == *old(self),
            old(self).plugins().contains_key(id@) ==> r is Ok && unload_effect(*old(self), *final(self), id@),
    {
        let ghost before = *self;
        if !self.plugins.contains_key(id) {
            return Err(MathCoreError::new(ErrorKind::PluginNotFound(to_owned_string(id))));
        }
        let _removed = self.plugins.remove(id);
        let _quota = self.resource_quotas.remove(id);
        proof {
            self.plugins.lemma_entries();
            before.plugins.lemma_entries();
            assert(self.plugins@.dom() =~= before.plugins@.dom().remove(id@));
            assert(self.plugins() =~= before.plugins().remove(id@));
            assert(self.plugins@.dom().len() <= before.plugins@.dom().len());
        }
        Ok(())
    }

    /// A copy of the registered plugin `id`, if there is one.
    pub fn get_plugin(&self, id: &str) -> (r: Option<PluginInfo>)
        requires
            self.wf(),
        ensures
            match r {
                Some(p) => self.plugins().contains_key(id@) && p@ == self.plugins()[id@],
                None => !self.plugins().contains_key(id@),
            },
    {
        match self.plugins.get(id) {
            Some(p) => Some(p.clone()),
            None => None,
        }
    }

    /// Every registered plugin's id with a copy of its description, one
    /// entry per plugin, in registration order.
    pub fn list_plugins(&self) -> (r: Vec<(String, PluginMetadata)>)
        requires
            self.wf(),
        ensures
            r@.len() == self.plugins().dom().len(),
            forall|i: int|
                0 <= i < r@.len() ==> self.plugins().contains_key(#[trigger] r@[i].0@) && self.plugins()[r@[i].0@].metadata
                    == r@[i].1@,
            forall|i: int, j: int|
                0 <= i < r@.len() && 0 <= j < r@.len() && i != j ==> #[trigger] r@[i].0@ != #[trigger] r@[j].0@,
    {
        proof {
            self.plugins.lemma_entries();
        }
        let n = self.plugins.len();
        let mut out: Vec<(String, PluginMetadata)> = Vec::new();
        let mut i: usize = 0;
        while i < n
            invariant
                i <= n,
                n == self.plugins.entry_seq().len(),
                self.wf(),
                out@.len() == i,
                forall|k: int| 0 <= k < i ==> #[trigger] out@[k].0@ == self.plugins.entry_seq()[k].0@
                    && out@[k].1@ == self.plugins.entry_seq()[k].1.metadata@,
            decreases n - i,
        {
            let key = self.plugins.key_at(i).clone();
            let meta = self.plugins.value_at(i).metadata.clone();
            let ghost before = out@;
            out.push((key, meta));
            assert(out@[i as int].0@ == self.plugins.entry_seq()[i as int].0@);
            assert(out@[i as int].1@ == self.plugins.entry_seq()[i as int].1.metadata@);
            assert(out@.len() == i + 1);
            assert forall|k: int| 0 <= k < i + 1 implies #[trigger] out@[k].0@ == self.plugins.entry_seq()[k].0@
                && out@[k].1@ == self.plugins.entry_seq()[k].1.metadata@ by {
                if k < i {
                    assert(out@[k] == before[k]);
                    assert(before[k].0@ == self.plugins.entry_seq()[k].0@);
                }
            }
            i = i + 1;
        }
        proof {
            self.plugins.lemma_entries();
            assert(self.plugins().dom() =~= self.plugins@.dom());
            assert forall|i: int| 0 <= i < out@.len() implies self.plugins().contains_key(#[trigger] out@[i].0@)
                && self.plugins()[out@[i].0@].metadata == out@[i].1@ by {
                assert(out@[i].0@ == self.plugins.entry_seq()[i].0@);
            }
            assert forall|i: int, j: int| 0 <= i < out@.len() && 0 <= j < out@.len() && i != j implies #[trigger] out@[i].0@
                != #[trigger] out@[j].0@ by {
                assert(out@[i].0@ == self.plugins.entry_seq()[i].0@);
                assert(out@[j].0@ == self.plugins.entry_seq()[j].0@);
            }
        }
        out
    }

    /// Replaces the quota of a registered plugin; an unknown id is an error.
    pub fn set_resource_quota(&mut self, plugin_id: &str, quota: ResourceQuota) -> (r: Result<(), MathCoreError>)
        requires
            old(self).wf(),
        ensures
            final(self).wf(),
            !old(self).plugins().contains_key(plugin_id@) ==> (r matches Err(e) && e.spec_kind() matches ErrorKind::PluginNotFound(i)
                && i@ == plugin_id@) && *final(self) == *old(self),
            old(self).plugins().contains_key(plugin_id@) ==> r is Ok && final(self).quotas() == old(
                self,
            ).quotas().insert(plugin_id@, quota) && final(self).plugins() == old(self).plugins()
                && final(self).same_lifecycle(*old(self)),
    {
        if !self.plugins.contains_key(plugin_id) {
            return Err(MathCoreError::new(ErrorKind::PluginNotFound(to_owned_string(plugin_id))));
        }
        let ghost before = self.resource_quotas@;
        assert(self.plugins@.contains_key(plugin_id@));
        assert(before.dom().contains(plugin_id@));
        self.resource_quotas.insert(to_owned_string(plugin_id), quota);
        assert(self.resource_quotas@.dom() =~= before.dom().insert(plugin_id@));
        assert(self.resource_quotas@.dom() =~= self.plugins@.dom());
        Ok(())
    }

    /// The quota of a plugin, if it has one.
    pub fn get_resource_quota(&self, plugin_id: &str) -> (r: Option<ResourceQuota>)
        requires
            self.wf(),
        ensures
            match r {
                Some(q) => self.quotas().contains_key(plugin_id@) && self.quotas()[plugin_id@] == q,
                None => !self.quotas().contains_key(plugin_id@),
            },
    {
        match self.resource_quotas.get(plugin_id) {
            Some(q) => Some(*q),
            None => None,
        }
    }

    /// A reading of the counters and of the number of plugins.
    pub fn stats(&self) -> (r: KernelStatsSnapshot)
        requires
            self.wf(),
        ensures
            r == (KernelStatsSnapshot {
                uptime_seconds: self.spec_stats().uptime_seconds,
                total_executions: self.spec_stats().total_executions,
                failed_executions: self.spec_stats().failed_executions,
                messages_processed: self.spec_stats().messages_processed,
                plugins_loaded: self.plugins().dom().len() as usize,
            }),
    {
        proof {
            self.plugins.lemma_entries();
            assert(self.plugins().dom() =~= self.plugins@.dom());
        }
        KernelStatsSnapshot {
            uptime_seconds: self.stats.uptime_seconds,
            total_executions: self.stats.total_executions,
            failed_executions: self.stats.failed_executions,
            messages_processed: self.stats.messages_processed,
            plugins_loaded: self.plugins.len(),
        }
    }

    /// The lifecycle state.
    pub fn state(&self) -> (r: KernelState)
        ensures
            r == self.spec_state(),
    {
        self.state
    }

    /// The configuration.
    pub fn config(&self) -> (r: &KernelConfig)
        ensures
            *r == self.spec_config(),
    {
        &self.config
    }
}

/// Loading a plugin and then unloading it leaves the registry and the
/// quotas as they were.
pub proof fn lemma_load_then_unload(k0: Kernel, k1: Kernel, k2: Kernel, meta: PluginMetadataView, sandboxed: bool)
    requires
        k0.wf(),
        !k0.plugins().contains_key(meta.id),
        load_effect(k0, k1, meta, sandboxed),
        unload_effect(k1, k2, meta.id),
    ensures
        k2.plugins() == k0.plugins(),
        k2.quotas() == k0.quotas(),
        k2.same_lifecycle(k0),
{
    k0.lemma_registry_bounds();
    assert(k2.plugins() =~= k0.plugins());
    assert(k2.quotas() =~= k0.quotas());
}

} // verus!
