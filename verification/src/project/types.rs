//! The full compose-spec model: every service option, included files,
//! `extends:`, configs and secrets references, and the top-level resource
//! sections.
//!
//! Keyed sections are insertion-ordered lists of `(name, value)` entries.
//! The value types that the basic model already defines (commands,
//! environment and label lists, ulimits, ...) are shared with it.
use vstd::prelude::*;
use crate::kv::{kv_get, kv_lookup, unique_key_views};
use crate::text::{chars_of, find_char_exec, parse_uint_detailed, parse_uint_detailed_exec, slice_chars, starts_with, starts_with_exec, str_eq};

pub use crate::compose::types::{
    clone_strings, short_volume_target, Command, DeployRestartPolicy, EnvVars, Labels,
    LoggingConfig, ScalarValue, ServiceCondition, StringOrList, StringOrU16, Sysctls,
    UlimitConfig,
};

verus! {

// ---------------------------------------------------------------------------
// Top-level file
// ---------------------------------------------------------------------------

/// The root of a docker-compose file.
#[derive(Debug, Clone, Default)]
pub struct ComposeFile {
    pub version: Option<String>,
    pub name: Option<String>,
    pub includes: Vec<IncludeConfig>,
    pub services: Vec<(String, Service)>,
    pub volumes: Vec<(String, Option<VolumeConfig>)>,
    pub networks: Vec<(String, Option<NetworkConfig>)>,
    pub secrets: Vec<(String, SecretConfig)>,
    pub configs: Vec<(String, ConfigConfig)>,
}

impl ComposeFile {
    /// Each keyed section names every entry once.
    pub open spec fn wf(&self) -> bool {
        &&& unique_key_views(self.services@)
        &&& unique_key_views(self.volumes@)
        &&& unique_key_views(self.networks@)
        &&& unique_key_views(self.secrets@)
        &&& unique_key_views(self.configs@)
    }
}

// ---------------------------------------------------------------------------
// Include
// ---------------------------------------------------------------------------

/// One entry in the top-level array of included files.
#[derive(Debug, Clone)]
pub enum IncludeConfig {
    /// Short form: a path string.
    Path(String),
    /// Long form with explicit path / env_file / project_directory.
    Long {
        path: StringOrList,
        env_file: Option<StringOrList>,
        project_directory: Option<String>,
    },
}

impl IncludeConfig {
    /// The included paths.
    pub open spec fn paths_view(self) -> Seq<Seq<char>> {
        match self {
            IncludeConfig::Path(p) => seq![p@],
            IncludeConfig::Long { path, .. } => path.list_view(),
        }
    }

    /// Return the entry's path(s) as a flat list.
    pub fn paths(&self) -> (r: Vec<String>)
        ensures
            r.deep_view() == self.paths_view(),
    {
        match self {
            IncludeConfig::Path(p) => {
                let mut r: Vec<String> = Vec::new();
                r.push(p.clone());
                assert(r.deep_view() =~= self.paths_view());
                r
            },
            IncludeConfig::Long { path, .. } => path.to_list(),
        }
    }
}

// ---------------------------------------------------------------------------
// Service
// ---------------------------------------------------------------------------

/// A single service definition.
#[derive(Debug, Clone, Default)]
pub struct Service {
    pub image: Option<String>,
    pub build: Option<BuildConfig>,
    pub extends: Option<ExtendsConfig>,
    pub command: Option<Command>,
    pub entrypoint: Option<Command>,
    pub ports: Vec<PortMapping>,
    pub expose: Vec<String>,
    pub environment: EnvVars,
    pub env_file: StringOrList,
    pub volumes: Vec<VolumeMount>,
    pub tmpfs: StringOrList,
    pub volumes_from: Vec<String>,
    pub configs: Vec<ServiceConfigRef>,
    pub secrets: Vec<ServiceSecretRef>,
    pub networks: ServiceNetworks,
    pub hostname: Option<String>,
    pub domainname: Option<String>,
    pub mac_address: Option<String>,
    pub links: Vec<String>,
    pub extra_hosts: Vec<String>,
    pub dns: StringOrList,
    pub dns_search: StringOrList,
    pub network_mode: Option<String>,
    pub depends_on: DependsOn,
    pub healthcheck: Option<HealthCheck>,
    pub restart: Option<RestartPolicy>,
    pub stop_signal: Option<String>,
    pub stop_grace_period: Option<String>,
    pub profiles: Vec<String>,
    pub labels: Labels,
    pub annotations: Labels,
    pub container_name: Option<String>,
    pub user: Option<String>,
    pub working_dir: Option<String>,
    pub group_add: Vec<String>,
    pub platform: Option<String>,
    pub cap_add: Vec<String>,
    pub cap_drop: Vec<String>,
    pub security_opt: Vec<String>,
    pub read_only: Option<bool>,
    pub privileged: Option<bool>,
    pub init: Option<bool>,
    pub tty: Option<bool>,
    pub stdin_open: Option<bool>,
    pub runtime: Option<String>,
    pub shm_size: Option<String>,
    pub userns_mode: Option<String>,
    pub pid: Option<String>,
    pub ipc: Option<String>,
    pub cgroup_parent: Option<String>,
    pub cgroup: Option<String>,
    pub devices: Vec<String>,
    /// Storage driver options (a map: each key once).
    pub storage_opt: Vec<(String, String)>,
    pub scale: Option<u32>,
    pub cpu_shares: Option<u64>,
    pub cpu_quota: Option<i64>,
    pub cpu_period: Option<u64>,
    pub cpuset: Option<String>,
    pub mem_limit: Option<String>,
    pub memswap_limit: Option<String>,
    pub mem_reservation: Option<String>,
    pub oom_kill_disable: Option<bool>,
    pub oom_score_adj: Option<i64>,
    pub logging: Option<LoggingConfig>,
    pub sysctls: Sysctls,
    pub ulimits: Vec<(String, UlimitConfig)>,
    pub deploy: Option<DeployConfig>,
}

// ---------------------------------------------------------------------------
// Extends
// ---------------------------------------------------------------------------

/// `extends:` configuration on a service.
#[derive(Debug, Clone)]
pub enum ExtendsConfig {
    /// Short form — service name in the same file.
    Service(String),
    /// Long form with optional `file:`.
    Long { service: String, file: Option<String> },
}

impl ExtendsConfig {
    /// The base service's name.
    pub open spec fn service_view(self) -> Seq<char> {
        match self {
            ExtendsConfig::Service(s) => s@,
            ExtendsConfig::Long { service, .. } => service@,
        }
    }

    /// The file holding the base service, if one is named.
    pub open spec fn file_view(self) -> Option<Seq<char>> {
        match self {
            ExtendsConfig::Long { file: Some(f), .. } => Some(f@),
            _ => None,
        }
    }

    /// Return the base service name.
    pub fn service(&self) -> (r: &str)
        ensures
            r@ == self.service_view(),
    {
        match self {
            ExtendsConfig::Service(s) => s.as_str(),
            ExtendsConfig::Long { service, .. } => service.as_str(),
        }
    }

    /// Return the optional file path of the base service.
    pub fn file(&self) -> (r: Option<&str>)
        ensures
            match r {
                Some(f) => self.file_view() == Some(f@),
                None => self.file_view() is None,
            },
    {
        match self {
            ExtendsConfig::Service(_) => None,
            ExtendsConfig::Long { file, .. } => match file {
                Some(f) => Some(f.as_str()),
                None => None,
            },
        }
    }
}

// ---------------------------------------------------------------------------
// Build config
// ---------------------------------------------------------------------------

/// Service build configuration.
#[derive(Debug, Clone)]
pub enum BuildConfig {
    /// Short form: just the context path.
    Context(String),
    /// Long form with optional dockerfile / args / target etc.
    Config {
        context: String,
        dockerfile: Option<String>,
        args: EnvVars,
        target: Option<String>,
        cache_from: Vec<String>,
        labels: Labels,
        shm_size: Option<String>,
        network: Option<String>,
        platforms: Vec<String>,
        additional_contexts: Vec<(String, String)>,
    },
}

impl BuildConfig {
    /// Return the build context directory.
    pub fn context(&self) -> (r: &str)
        ensures
            r@ == match self {
                BuildConfig::Context(ctx) => ctx@,
                BuildConfig::Config { context, .. } => context@,
            },
    {
        match self {
            BuildConfig::Context(ctx) => ctx.as_str(),
            BuildConfig::Config { context, .. } => context.as_str(),
        }
    }

    /// Return the Dockerfile path relative to the context, if specified.
    pub fn dockerfile(&self) -> (r: Option<&str>)
        ensures
            match self {
                BuildConfig::Config { dockerfile: Some(d), .. } => r matches Some(x) && x@ == d@,
                _ => r is None,
            },
    {
        match self {
            BuildConfig::Context(_) => None,
            BuildConfig::Config { dockerfile, .. } => match dockerfile {
                Some(d) => Some(d.as_str()),
                None => None,
            },
        }
    }

    /// Return the build arguments (none for the short form).
    pub fn args(&self) -> (r: EnvVars)
        ensures
            r.entries() == match self {
                BuildConfig::Context(_) => Seq::empty(),
                BuildConfig::Config { args, .. } => args.entries(),
            },
            self matches BuildConfig::Context(_) ==> r matches EnvVars::Empty,
    {
        match self {
            BuildConfig::Context(_) => EnvVars::Empty,
            BuildConfig::Config { args, .. } => copy_env_vars(args),
        }
    }

    /// Return the target stage, if any.
    pub fn target(&self) -> (r: Option<&str>)
        ensures
            match self {
                BuildConfig::Config { target: Some(t), .. } => r matches Some(x) && x@ == t@,
                _ => r is None,
            },
    {
        match self {
            BuildConfig::Context(_) => None,
            BuildConfig::Config { target, .. } => match target {
                Some(t) => Some(t.as_str()),
                None => None,
            },
        }
    }
}

/// An entry-for-entry copy of an environment list or map.
fn copy_env_vars(e: &EnvVars) -> (r: EnvVars)
    ensures
        r.entries() == e.entries(),
        e matches EnvVars::Empty ==> r matches EnvVars::Empty,
{
    match e {
        EnvVars::Empty => EnvVars::Empty,
        EnvVars::List(v) => EnvVars::List(clone_strings(v)),
        EnvVars::Mapping(m) => {
            let mut r: Vec<(String, Option<ScalarValue>)> = Vec::new();
            let mut i: usize = 0;
            while i < m.len()
                invariant
                    i <= m@.len(),
                    r@.len() == i,
                    forall|j: int| 0 <= j < i ==> (#[trigger] r@[j]).0@ == m@[j].0@
                        && crate::compose::types::env_value(r@[j].1) == crate::compose::types::env_value(m@[j].1),
                decreases m@.len() - i,
            {
                let v = match &m[i].1 {
                    Some(x) => Some(copy_scalar(x)),
                    None => None,
                };
                r.push((m[i].0.clone(), v));
                i = i + 1;
            }
            let out = EnvVars::Mapping(r);
            assert(out.entries() =~= e.entries());
            out
        },
    }
}

fn copy_scalar(v: &ScalarValue) -> (r: ScalarValue)
    ensures
        r == *v,
{
    match v {
        ScalarValue::String(s) => ScalarValue::String(s.clone()),
        ScalarValue::Number(n) => ScalarValue::Number(n.clone()),
        ScalarValue::Bool(b) => ScalarValue::Bool(*b),
        ScalarValue::Null => ScalarValue::Null,
        ScalarValue::Other => ScalarValue::Other,
    }
}

// ---------------------------------------------------------------------------
// Port mapping
// ---------------------------------------------------------------------------

/// Port mapping — short string form or long object form.
#[derive(Debug, Clone)]
pub enum PortMapping {
    Short(String),
    Long {
        target: u16,
        published: Option<StringOrU16>,
        protocol: Option<String>,
        host_ip: Option<String>,
        mode: Option<String>,
        app_protocol: Option<String>,
        name: Option<String>,
    },
}

// ---------------------------------------------------------------------------
// Volume mount
// ---------------------------------------------------------------------------

/// Volume mount — short string form or long object form.
#[derive(Debug, Clone)]
pub enum VolumeMount {
    /// Short form (`./data:/var/lib/data:ro`).
    Short(String),
    /// Long object form.
    Long {
        volume_type: VolumeType,
        source: Option<String>,
        target: String,
        read_only: Option<bool>,
        bind: Option<BindOptions>,
        volume: Option<VolumeOptions>,
        tmpfs: Option<TmpfsOptions>,
        consistency: Option<String>,
    },
}

impl VolumeMount {
    /// The container-side target.
    pub open spec fn target_view(self) -> Seq<char> {
        match self {
            VolumeMount::Short(s) => short_volume_target(s@),
            VolumeMount::Long { target, .. } => target@,
        }
    }

    /// Return the container-side mount target path.
    pub fn target(&self) -> (r: &str)
        ensures
            r@ == self.target_view(),
    {
        match self {
            VolumeMount::Short(s) => {
                let v = chars_of(s.as_str());
                let n = v.len();
                match find_char_exec(v.as_slice(), ':') {
                    None => s.as_str(),
                    Some(i) => {
                        let r = slice_chars(v.as_slice(), i + 1, n);
                        assert(r@ =~= s@.skip(i + 1));
                        match find_char_exec(r.as_slice(), ':') {
                            None => {
                                assert(s@.subrange(i + 1, n as int) =~= r@);
                                s.as_str().substring_char(i + 1, n)
                            },
                            Some(j) => {
                                assert(s@.subrange(i + 1, i + 1 + j) =~= r@.take(j as int));
                                s.as_str().substring_char(i + 1, i + 1 + j)
                            },
                        }
                    },
                }
            },
            VolumeMount::Long { target, .. } => target.as_str(),
        }
    }
}

/// Volume type tag.
#[derive(Debug, Clone, Copy, PartialEq, Eq)]
pub enum VolumeType {
    /// Named or anonymous volume.
    Volume,
    /// Bind mount of a host path.
    Bind,
    /// In-memory tmpfs.
    Tmpfs,
    /// NPipe (Windows-only, passed through unchanged).
    Npipe,
    /// Cluster-managed volume.
    Cluster,
}

/// Options for a bind mount (long form).
#[derive(Debug, Clone, Default)]
pub struct BindOptions {
    /// Mount propagation mode.
    pub propagation: Option<String>,
    /// Auto-create the host path if missing.
    pub create_host_path: Option<bool>,
    /// SELinux relabel: `z` (shared) or `Z` (private).
    pub selinux: Option<String>,
}

/// Options for a named volume mount (long form).
#[derive(Debug, Clone, Default)]
pub struct VolumeOptions {
    pub nocopy: Option<bool>,
    pub labels: Labels,
    pub driver_config: Option<DriverConfig>,
    pub subpath: Option<String>,
}

/// Driver configuration for a volume mount.
#[derive(Debug, Clone, Default)]
pub struct DriverConfig {
    pub name: Option<String>,
    pub options: Vec<(String, String)>,
}

/// Options for a tmpfs mount (long form).
#[derive(Debug, Clone, Default)]
pub struct TmpfsOptions {
    /// Tmpfs size in bytes.
    pub size: Option<u64>,
    /// File mode (octal).
    pub mode: Option<u32>,
}

// ---------------------------------------------------------------------------
// Service-level configs / secrets references
// ---------------------------------------------------------------------------

/// Reference from a service to a top-level `configs:` entry.
#[derive(Debug, Clone)]
pub enum ServiceConfigRef {
    /// Short form — just the name.
    Short(String),
    /// Long form with mount options.
    Long {
        source: String,
        target: Option<String>,
        uid: Option<String>,
        gid: Option<String>,
        mode: Option<u32>,
    },
}

impl ServiceConfigRef {
    /// The referenced top-level name.
    pub open spec fn source_view(self) -> Seq<char> {
        match self {
            ServiceConfigRef::Short(s) => s@,
            ServiceConfigRef::Long { source, .. } => source@,
        }
    }

    /// Return the source name.
    pub fn source(&self) -> (r: &str)
        ensures
            r@ == self.source_view(),
    {
        match self {
            ServiceConfigRef::Short(s) => s.as_str(),
            ServiceConfigRef::Long { source, .. } => source.as_str(),
        }
    }

    /// Return the explicit target path, if any.
    pub fn target(&self) -> (r: Option<&str>)
        ensures
            match self {
                ServiceConfigRef::Long { target: Some(t), .. } => r matches Some(x) && x@ == t@,
                _ => r is None,
            },
    {
        match self {
            ServiceConfigRef::Short(_) => None,
            ServiceConfigRef::Long { target, .. } => match target {
                Some(t) => Some(t.as_str()),
                None => None,
            },
        }
    }
}

/// Reference from a service to a top-level `secrets:` entry.
#[derive(Debug, Clone)]
pub enum ServiceSecretRef {
    /// Short form — just the name.
    Short(String),
    /// Long form with mount options.
    Long {
        source: String,
        target: Option<String>,
        uid: Option<String>,
        gid: Option<String>,
        mode: Option<u32>,
    },
}

impl ServiceSecretRef {
    /// The referenced top-level name.
    pub open spec fn source_view(self) -> Seq<char> {
        match self {
            ServiceSecretRef::Short(s) => s@,
            ServiceSecretRef::Long { source, .. } => source@,
        }
    }

    /// Return the source name.
    pub fn source(&self) -> (r: &str)
        ensures
            r@ == self.source_view(),
    {
        match self {
            ServiceSecretRef::Short(s) => s.as_str(),
            ServiceSecretRef::Long { source, .. } => source.as_str(),
        }
    }

    /// Return the explicit target path, if any.
    pub fn target(&self) -> (r: Option<&str>)
        ensures
            match self {
                ServiceSecretRef::Long { target: Some(t), .. } => r matches Some(x) && x@ == t@,
                _ => r is None,
            },
    {
        match self {
            ServiceSecretRef::Short(_) => None,
            ServiceSecretRef::Long { target, .. } => match target {
                Some(t) => Some(t.as_str()),
                None => None,
            },
        }
    }
}

// ---------------------------------------------------------------------------
// Networks
// ---------------------------------------------------------------------------

/// Service-level network attachment — list or map form.
#[derive(Debug, Clone, Default)]
pub enum ServiceNetworks {
    #[default]
    Empty,
    List(Vec<String>),
    Mapping(Vec<(String, Option<ServiceNetworkConfig>)>),
}

impl ServiceNetworks {

    /// No entry is present.
    pub open spec fn empty_view(self) -> bool {
        match self {
            ServiceNetworks::Empty => true,
            ServiceNetworks::List(v) => v@.len() == 0,
            ServiceNetworks::Mapping(m) => m@.len() == 0,
        }
    }

    /// True when no entry is present.
    pub fn is_empty(&self) -> (r: bool)
        ensures
            r == self.empty_view(),
    {
        match self {
            ServiceNetworks::Empty => true,
            ServiceNetworks::List(v) => v.len() == 0,
            ServiceNetworks::Mapping(m) => m.len() == 0,
        }
    }
    /// The attached network names, in order.
    pub open spec fn names_view(self) -> Seq<Seq<char>> {
        match self {
            ServiceNetworks::Empty => Seq::empty(),
            ServiceNetworks::List(v) => v.deep_view(),
            ServiceNetworks::Mapping(m) => Seq::new(m@.len(), |i: int| m@[i].0@),
        }
    }

    /// The configuration attached to network `name`: that of the first map
    /// entry with that name, when it has one.
    pub open spec fn config_view(self, name: Seq<char>) -> Option<ServiceNetworkConfig> {
        match self {
            ServiceNetworks::Mapping(m) => match kv_lookup(m@, name) {
                Some(c) => c,
                None => None,
            },
            _ => None,
        }
    }

    /// Return network names.
    pub fn names(&self) -> (r: Vec<String>)
        ensures
            r.deep_view() == self.names_view(),
    {
        match self {
            ServiceNetworks::Empty => {
                let r: Vec<String> = Vec::new();
                assert(r.deep_view() =~= self.names_view());
                r
            },
            ServiceNetworks::List(v) => clone_strings(v),
            ServiceNetworks::Mapping(m) => {
                let mut r: Vec<String> = Vec::new();
                let mut i: usize = 0;
                while i < m.len()
                    invariant
                        i <= m@.len(),
                        *self == ServiceNetworks::Mapping(*m),
                        r.deep_view() =~= self.names_view().take(i as int),
                    decreases m@.len() - i,
                {
                    r.push(m[i].0.clone());
                    assert(self.names_view().take(i + 1) =~= self.names_view().take(i as int).push(self.names_view()[i as int]));
                    i = i + 1;
                }
                assert(self.names_view().take(m@.len() as int) =~= self.names_view());
                r
            },
        }
    }

    /// Return per-network configuration for a named network, if any.
    pub fn config_for(&self, name: &str) -> (r: Option<&ServiceNetworkConfig>)
        ensures
            match r {
                Some(c) => self.config_view(name@) == Some(*c),
                None => self.config_view(name@) is None,
            },
    {
        match self {
            ServiceNetworks::Mapping(m) => match kv_get(m, name) {
                Some(c) => match c {
                    Some(x) => Some(x),
                    None => None,
                },
                None => None,
            },
            _ => None,
        }
    }
}

/// Per-network configuration for a service attachment.
#[derive(Debug, Clone, Default)]
pub struct ServiceNetworkConfig {
    pub aliases: Option<Vec<String>>,
    pub ipv4_address: Option<String>,
    pub ipv6_address: Option<String>,
    pub link_local_ips: Vec<String>,
    pub priority: Option<u32>,
    pub mac_address: Option<String>,
    pub driver_opts: Vec<(String, String)>,
    pub gw_priority: Option<u32>,
}

// ---------------------------------------------------------------------------
// depends_on
// ---------------------------------------------------------------------------

/// `depends_on` — list or condition-map form.
#[derive(Debug, Clone, Default)]
pub enum DependsOn {
    #[default]
    Empty,
    List(Vec<String>),
    Mapping(Vec<(String, DependsOnCondition)>),
}

impl DependsOn {

    /// No entry is present.
    pub open spec fn empty_view(self) -> bool {
        match self {
            DependsOn::Empty => true,
            DependsOn::List(v) => v@.len() == 0,
            DependsOn::Mapping(m) => m@.len() == 0,
        }
    }

    /// True when no entry is present.
    pub fn is_empty(&self) -> (r: bool)
        ensures
            r == self.empty_view(),
    {
        match self {
            DependsOn::Empty => true,
            DependsOn::List(v) => v.len() == 0,
            DependsOn::Mapping(m) => m.len() == 0,
        }
    }
    /// The dependency names, in order.
    pub open spec fn names_view(self) -> Seq<Seq<char>> {
        match self {
            DependsOn::Empty => Seq::empty(),
            DependsOn::List(v) => v.deep_view(),
            DependsOn::Mapping(m) => Seq::new(m@.len(), |i: int| m@[i].0@),
        }
    }

    /// The map entry declared for `service`, if any (the first one).
    pub open spec fn entry_view(self, service: Seq<char>) -> Option<DependsOnCondition> {
        match self {
            DependsOn::Mapping(m) => kv_lookup(m@, service),
            _ => None,
        }
    }

    /// The readiness condition for `service`; `service_started` by default.
    pub open spec fn condition_view(self, service: Seq<char>) -> ServiceCondition {
        match self.entry_view(service) {
            Some(c) => c.condition,
            None => ServiceCondition::ServiceStarted,
        }
    }

    /// Whether `service` is declared `restart: true`; false by default.
    pub open spec fn restart_view(self, service: Seq<char>) -> bool {
        match self.entry_view(service) {
            Some(DependsOnCondition { restart: Some(b), .. }) => b,
            _ => false,
        }
    }

    /// Whether `service` is required; true unless declared `required: false`.
    pub open spec fn required_view(self, service: Seq<char>) -> bool {
        match self.entry_view(service) {
            Some(DependsOnCondition { required: Some(b), .. }) => b,
            _ => true,
        }
    }

    /// Return the list of dependency service names.
    pub fn service_names(&self) -> (r: Vec<String>)
        ensures
            r.deep_view() == self.names_view(),
    {
        match self {
            DependsOn::Empty => {
                let r: Vec<String> = Vec::new();
                assert(r.deep_view() =~= self.names_view());
                r
            },
            DependsOn::List(v) => clone_strings(v),
            DependsOn::Mapping(m) => {
                let mut r: Vec<String> = Vec::new();
                let mut i: usize = 0;
                while i < m.len()
                    invariant
                        i <= m@.len(),
                        *self == DependsOn::Mapping(*m),
                        r.deep_view() =~= self.names_view().take(i as int),
                    decreases m@.len() - i,
                {
                    r.push(m[i].0.clone());
                    assert(self.names_view().take(i + 1) =~= self.names_view().take(i as int).push(self.names_view()[i as int]));
                    i = i + 1;
                }
                assert(self.names_view().take(m@.len() as int) =~= self.names_view());
                r
            },
        }
    }

    fn entry(&self, service: &str) -> (r: Option<&DependsOnCondition>)
        ensures
            match r {
                Some(c) => self.entry_view(service@) == Some(*c),
                None => self.entry_view(service@) is None,
            },
    {
        match self {
            DependsOn::Mapping(m) => kv_get(m, service),
            _ => None,
        }
    }

    /// Return the condition for a named dependency (defaults to `service_started`).
    pub fn condition_for(&self, service: &str) -> (r: ServiceCondition)
        ensures
            r == self.condition_view(service@),
    {
        match self.entry(service) {
            Some(c) => c.condition,
            None => ServiceCondition::ServiceStarted,
        }
    }

    /// Return whether a dependency was declared as `restart: true`.
    pub fn restart_for(&self, service: &str) -> (r: bool)
        ensures
            r == self.restart_view(service@),
    {
        match self.entry(service) {
            Some(c) => match c.restart {
                Some(b) => b,
                None => false,
            },
            None => false,
        }
    }

    /// Return whether a dependency is required (defaults to true).
    pub fn required_for(&self, service: &str) -> (r: bool)
        ensures
            r == self.required_view(service@),
    {
        match self.entry(service) {
            Some(c) => match c.required {
                Some(b) => b,
                None => true,
            },
            None => true,
        }
    }
}

/// One entry in the map form of `depends_on`.
#[derive(Debug, Clone, Copy)]
pub struct DependsOnCondition {
    /// Readiness condition.
    pub condition: ServiceCondition,
    /// Whether to restart this service when the dependency restarts.
    pub restart: Option<bool>,
    /// Whether the dependency is required (defaults to true).
    pub required: Option<bool>,
}

// ---------------------------------------------------------------------------
// Healthcheck
// ---------------------------------------------------------------------------

/// Service healthcheck configuration.
#[derive(Debug, Clone, Default)]
pub struct HealthCheck {
    /// The test command: `["NONE"]` disables an inherited check,
    /// `["CMD", ...]` is the exec form, `["CMD-SHELL", "..."]` or a plain
    /// string the shell form.
    pub test: Option<Command>,
    pub interval: Option<String>,
    pub timeout: Option<String>,
    pub retries: Option<u32>,
    pub start_period: Option<String>,
    pub start_interval: Option<String>,
    pub disable: Option<bool>,
}

/// ASCII lowercase of a character; other characters are kept.
pub open spec fn ascii_lower(c: char) -> char {
    if 'A' <= c && c <= 'Z' { ((c as u8) + 32u8) as char } else { c }
}

/// Equality up to ASCII case.
pub open spec fn eq_ignore_ascii_case(a: Seq<char>, b: Seq<char>) -> bool {
    a.len() == b.len() && forall|i: int| 0 <= i < a.len() ==> ascii_lower(#[trigger] a[i]) == ascii_lower(b[i])
}

fn ascii_lower_exec(c: char) -> (r: char)
    ensures
        r == ascii_lower(c),
{
    if 'A' <= c && c <= 'Z' {
        let b: u8 = c as u8;
        (b + 32u8) as char
    } else {
        c
    }
}

fn eq_ignore_ascii_case_exec(a: &str, b: &str) -> (r: bool)
    ensures
        r == eq_ignore_ascii_case(a@, b@),
{
    let x = chars_of(a);
    let y = chars_of(b);
    if x.len() != y.len() {
        return false;
    }
    let mut i: usize = 0;
    while i < x.len()
        invariant
            i <= x@.len(),
            x@ == a@,
            y@ == b@,
            x@.len() == y@.len(),
            forall|j: int| 0 <= j < i ==> ascii_lower(#[trigger] x@[j]) == ascii_lower(y@[j]),
        decreases x@.len() - i,
    {
        if ascii_lower_exec(x[i]) != ascii_lower_exec(y[i]) {
            return false;
        }
        i = i + 1;
    }
    true
}

impl HealthCheck {
    /// Disabled by `disable: true`, or by a test that is the single word
    /// `NONE` in any ASCII case.
    pub open spec fn disabled_view(self) -> bool {
        self.disable == Some(true) || match self.test {
            Some(Command::Exec(v)) => v@.len() == 1 && eq_ignore_ascii_case(v@[0]@, "NONE"@),
            _ => false,
        }
    }

    /// Return true when this healthcheck is effectively disabled
    /// (either `disable: true` or `test: ["NONE"]`).
    pub fn is_disabled(&self) -> (r: bool)
        ensures
            r == self.disabled_view(),
    {
        match self.disable {
            Some(true) => return true,
            _ => {},
        }
        match &self.test {
            Some(Command::Exec(v)) => v.len() == 1 && eq_ignore_ascii_case_exec(v[0].as_str(), "NONE"),
            _ => false,
        }
    }
}

// ---------------------------------------------------------------------------
// Restart policy
// ---------------------------------------------------------------------------

/// Container restart policy: `no`, `always`, `on-failure`,
/// `on-failure:N`, `unless-stopped`.
#[derive(Debug, Clone, Copy, PartialEq, Eq)]
pub enum RestartPolicy {
    No,
    Always,
    OnFailure { max_attempts: Option<u32> },
    UnlessStopped,
}

pub const RESTART_ON_FAILURE_PREFIX: &'static str = "on-failure:";
pub const INVALID_RESTART_POLICY: &'static str = "invalid restart policy: ";

/// How a `restart:` text reads: a policy, or the message it is rejected with.
pub open spec fn restart_policy_view(s: Seq<char>) -> Result<RestartPolicy, Seq<char>> {
    if s == "no"@ {
        Ok(RestartPolicy::No)
    } else if s == "always"@ {
        Ok(RestartPolicy::Always)
    } else if s == "unless-stopped"@ {
        Ok(RestartPolicy::UnlessStopped)
    } else if s == "on-failure"@ {
        Ok(RestartPolicy::OnFailure { max_attempts: None })
    } else if starts_with(s, RESTART_ON_FAILURE_PREFIX@) {
        match parse_uint_detailed(s.skip(RESTART_ON_FAILURE_PREFIX@.len() as int), u32::MAX as nat) {
            Ok(n) => Ok(RestartPolicy::OnFailure { max_attempts: Some(n as u32) }),
            Err(k) => Err(k.message_view()),
        }
    } else {
        Err(INVALID_RESTART_POLICY@ + s)
    }
}

impl RestartPolicy {
    /// Reads a `restart:` value.
    pub fn parse(s: &str) -> (r: Result<RestartPolicy, String>)
        ensures
            match r {
                Ok(p) => restart_policy_view(s@) == Ok::<RestartPolicy, Seq<char>>(p),
                Err(m) => restart_policy_view(s@) == Err::<RestartPolicy, Seq<char>>(m@),
            },
    {
        if str_eq(s, "no") {
            return Ok(RestartPolicy::No);
        }
        if str_eq(s, "always") {
            return Ok(RestartPolicy::Always);
        }
        if str_eq(s, "unless-stopped") {
            return Ok(RestartPolicy::UnlessStopped);
        }
        if str_eq(s, "on-failure") {
            return Ok(RestartPolicy::OnFailure { max_attempts: None });
        }
        let v = chars_of(s);
        let p = chars_of(RESTART_ON_FAILURE_PREFIX);
        if starts_with_exec(v.as_slice(), p.as_slice()) {
            let rest = slice_chars(v.as_slice(), p.len(), v.len());
            assert(rest@ =~= s@.skip(RESTART_ON_FAILURE_PREFIX@.len() as int));
            match parse_uint_detailed_exec(rest.as_slice(), 4294967295u64) {
                Ok(n) => Ok(RestartPolicy::OnFailure { max_attempts: Some(n as u32) }),
                Err(k) => Err(k.message()),
            }
        } else {
            let mut m = INVALID_RESTART_POLICY.to_string();
            m.append(s);
            Err(m)
        }
    }
}

// ---------------------------------------------------------------------------
// Deploy
// ---------------------------------------------------------------------------

/// `deploy:` section (Swarm / compose-spec).
#[derive(Debug, Clone, Default)]
pub struct DeployConfig {
    pub replicas: Option<u32>,
    pub resources: Option<ResourcesConfig>,
    pub restart_policy: Option<DeployRestartPolicy>,
    pub update_config: Option<DeployUpdateConfig>,
    pub rollback_config: Option<DeployUpdateConfig>,
    pub endpoint_mode: Option<String>,
    pub mode: Option<String>,
    pub labels: Labels,
    pub placement: Option<DeployPlacement>,
}

/// Deploy update / rollback policy.
#[derive(Debug, Clone, Default)]
pub struct DeployUpdateConfig {
    pub parallelism: Option<u32>,
    pub delay: Option<String>,
    pub failure_action: Option<String>,
    pub monitor: Option<String>,
    /// Maximum failure ratio, held as the bits of its IEEE-754 double.
    pub max_failure_ratio: Option<u64>,
    pub order: Option<String>,
}

/// Deploy placement constraints.
#[derive(Debug, Clone, Default)]
pub struct DeployPlacement {
    pub constraints: Vec<String>,
    /// Placement preferences, each as its YAML text.
    pub preferences: Vec<String>,
    pub max_replicas_per_node: Option<u32>,
}

/// Resource limits and reservations.
#[derive(Debug, Clone, Default)]
pub struct ResourcesConfig {
    pub limits: Option<ResourceSpec>,
    pub reservations: Option<ResourceSpec>,
}

/// A single resource specification (CPUs, memory, PIDs).
#[derive(Debug, Clone, Default)]
pub struct ResourceSpec {
    pub cpus: Option<String>,
    pub memory: Option<String>,
    pub pids: Option<u64>,
}

// ---------------------------------------------------------------------------
// Top-level resource configs
// ---------------------------------------------------------------------------

/// Named volume configuration.
#[derive(Debug, Clone, Default)]
pub struct VolumeConfig {
    pub driver: Option<String>,
    pub driver_opts: Vec<(String, String)>,
    pub external: Option<bool>,
    pub name: Option<String>,
    pub labels: Labels,
}

/// Named network configuration.
#[derive(Debug, Clone, Default)]
pub struct NetworkConfig {
    pub driver: Option<String>,
    pub driver_opts: Vec<(String, String)>,
    pub external: Option<bool>,
    pub name: Option<String>,
    pub internal: Option<bool>,
    pub enable_ipv6: Option<bool>,
    pub attachable: Option<bool>,
    pub ipam: Option<IpamConfig>,
    pub labels: Labels,
}

/// IPAM configuration.
#[derive(Debug, Clone, Default)]
pub struct IpamConfig {
    /// IPAM driver name.
    pub driver: Option<String>,
    /// IPAM configurations (subnets/gateways).
    pub config: Vec<IpamPool>,
    /// Driver options.
    pub options: Vec<(String, String)>,
}

/// IPAM subnet pool.
#[derive(Debug, Clone, Default)]
pub struct IpamPool {
    /// Subnet CIDR.
    pub subnet: Option<String>,
    /// Gateway address.
    pub gateway: Option<String>,
    /// IP range CIDR.
    pub ip_range: Option<String>,
    /// Auxiliary addresses.
    pub aux_addresses: Vec<(String, String)>,
}

/// Named secret configuration.
#[derive(Debug, Clone, Default)]
pub struct SecretConfig {
    pub file: Option<String>,
    pub external: Option<bool>,
    pub name: Option<String>,
    pub content: Option<String>,
    pub environment: Option<String>,
    pub driver: Option<String>,
    pub driver_opts: Vec<(String, String)>,
    pub labels: Labels,
}

/// Top-level config entry (compose-spec `configs:`).
#[derive(Debug, Clone, Default)]
pub struct ConfigConfig {
    pub file: Option<String>,
    pub external: Option<bool>,
    pub name: Option<String>,
    pub content: Option<String>,
    pub environment: Option<String>,
    pub labels: Labels,
}

// ---------------------------------------------------------------------------
// env_file entries
// ---------------------------------------------------------------------------

/// One entry in an `env_file:` list — either a bare path or a long-form object.
#[derive(Debug, Clone)]
pub enum EnvFileEntry {
    Path(String),
    Config { path: String, required: Option<bool>, format: Option<String> },
}

impl EnvFileEntry {
    /// The file's path.
    pub open spec fn path_view(self) -> Seq<char> {
        match self {
            EnvFileEntry::Path(p) => p@,
            EnvFileEntry::Config { path, .. } => path@,
        }
    }

    /// Whether a missing file is an error: true unless `required: false`.
    pub open spec fn required_view(self) -> bool {
        match self {
            EnvFileEntry::Config { required: Some(b), .. } => b,
            _ => true,
        }
    }

    pub fn path(&self) -> (r: &str)
        ensures
            r@ == self.path_view(),
    {
        match self {
            EnvFileEntry::Path(p) => p.as_str(),
            EnvFileEntry::Config { path, .. } => path.as_str(),
        }
    }

    /// `true` by default — a missing file is an error unless `required: false`.
    pub fn required(&self) -> (r: bool)
        ensures
            r == self.required_view(),
    {
        match self {
            EnvFileEntry::Path(_) => true,
            EnvFileEntry::Config { required, .. } => match required {
                Some(b) => *b,
                None => true,
            },
        }
    }
}

fn copy_env_file_entry(e: &EnvFileEntry) -> (r: EnvFileEntry)
    ensures
        r == *e,
{
    match e {
        EnvFileEntry::Path(p) => EnvFileEntry::Path(p.clone()),
        EnvFileEntry::Config { path, required, format } => EnvFileEntry::Config {
            path: path.clone(),
            required: *required,
            format: match format {
                Some(f) => Some(f.clone()),
                None => None,
            },
        },
    }
}

/// `env_file:` field — single path, list of paths, or list of long-form objects.
#[derive(Debug, Clone, Default)]
pub enum EnvFile {
    #[default]
    Empty,
    Single(EnvFileEntry),
    List(Vec<EnvFileEntry>),
}

impl EnvFile {
    /// The entries, in order.
    pub open spec fn entries_view(self) -> Seq<EnvFileEntry> {
        match self {
            EnvFile::Empty => Seq::empty(),
            EnvFile::Single(e) => seq![e],
            EnvFile::List(v) => v@,
        }
    }

    pub fn to_entries(&self) -> (r: Vec<EnvFileEntry>)
        ensures
            r@ == self.entries_view(),
    {
        match self {
            EnvFile::Empty => {
                let r: Vec<EnvFileEntry> = Vec::new();
                assert(r@ =~= self.entries_view());
                r
            },
            EnvFile::Single(e) => {
                let mut r: Vec<EnvFileEntry> = Vec::new();
                r.push(copy_env_file_entry(e));
                assert(r@ =~= self.entries_view());
                r
            },
            EnvFile::List(v) => {
                let mut r: Vec<EnvFileEntry> = Vec::new();
                let mut i: usize = 0;
                while i < v.len()
                    invariant
                        i <= v@.len(),
                        r@ =~= v@.take(i as int),
                    decreases v@.len() - i,
                {
                    r.push(copy_env_file_entry(&v[i]));
                    assert(v@.take(i + 1) =~= v@.take(i as int).push(v@[i as int]));
                    i = i + 1;
                }
                assert(v@.take(v@.len() as int) =~= v@);
                r
            },
        }
    }

    /// Return just the paths (strips `required` / `format` info).
    pub fn to_list(&self) -> (r: Vec<String>)
        ensures
            r.deep_view() == Seq::new(self.entries_view().len(), |i: int| self.entries_view()[i].path_view()),
    {
        let entries = self.to_entries();
        let mut r: Vec<String> = Vec::new();
        let mut i: usize = 0;
        while i < entries.len()
            invariant
                i <= entries@.len(),
                entries@ == self.entries_view(),
                r@.len() == i,
                forall|j: int| 0 <= j < i ==> (#[trigger] r@[j])@ == self.entries_view()[j].path_view(),
            decreases entries@.len() - i,
        {
            let p = entries[i].path().to_string();
            r.push(p);
            i = i + 1;
        }
        assert(r.deep_view() =~= Seq::new(self.entries_view().len(), |i: int| self.entries_view()[i].path_view()));
        r
    }

    /// No entry: absent or an empty list.
    pub open spec fn empty_view(self) -> bool {
        match self {
            EnvFile::Empty => true,
            EnvFile::Single(_) => false,
            EnvFile::List(v) => v@.len() == 0,
        }
    }

    pub fn is_empty(&self) -> (r: bool)
        ensures
            r == self.empty_view(),
    {
        match self {
            EnvFile::Empty => true,
            EnvFile::Single(_) => false,
            EnvFile::List(v) => v.len() == 0,
        }
    }
}

// ---------------------------------------------------------------------------
// Block I/O and lifecycle hooks
// ---------------------------------------------------------------------------

/// Block I/O limits.
#[derive(Debug, Clone, Default)]
pub struct BlkioConfig {
    pub weight: Option<u16>,
    pub weight_device: Vec<BlkioWeightDevice>,
    pub device_read_bps: Vec<BlkioRateDevice>,
    pub device_write_bps: Vec<BlkioRateDevice>,
    pub device_read_iops: Vec<BlkioRateDevice>,
    pub device_write_iops: Vec<BlkioRateDevice>,
}

/// Relative weight of one block device.
#[derive(Debug, Clone)]
pub struct BlkioWeightDevice {
    pub path: String,
    pub weight: u16,
}

/// Rate limit of one block device: a number, or a size text such as `1mb`.
#[derive(Debug, Clone)]
pub struct BlkioRateDevice {
    pub path: String,
    pub rate: ScalarValue,
}

/// A command run at a point of a container's life.
#[derive(Debug, Clone)]
pub struct LifecycleHook {
    pub command: Command,
    pub user: Option<String>,
    pub privileged: Option<bool>,
    pub working_dir: Option<String>,
    pub environment: EnvVars,
}

} // verus!
