//! Docker Compose file type definitions.
//!
//! Keyed sections (`services:`, `volumes:`, ...) are insertion-ordered lists of
//! `(name, value)` entries whose names are distinct.
use vstd::prelude::*;
use crate::kv::{collect_last_wins, kv_map, unique_key_views};
use crate::text::{chars_of, find_char, find_char_exec, slice_chars, string_of, decimal, decimal_string, lemma_parse_decimal, parse_u16};

verus! {

// ---------------------------------------------------------------------------
// Top-level file
// ---------------------------------------------------------------------------

/// The root of a docker-compose file.
#[derive(Debug, Clone, Default)]
pub struct ComposeFile {
    pub version: Option<String>,
    pub services: Vec<(String, Service)>,
    pub volumes: Vec<(String, Option<VolumeConfig>)>,
    pub networks: Vec<(String, Option<NetworkConfig>)>,
    pub secrets: Vec<(String, SecretConfig)>,
}

impl ComposeFile {
    /// Each keyed section names every entry once.
    pub open spec fn wf(&self) -> bool {
        &&& unique_key_views(self.services@)
        &&& unique_key_views(self.volumes@)
        &&& unique_key_views(self.networks@)
        &&& unique_key_views(self.secrets@)
    }
}

// ---------------------------------------------------------------------------
// Service
// ---------------------------------------------------------------------------

/// A single service definition.
#[derive(Debug, Clone, Default)]
pub struct Service {
    pub image: Option<String>,
    pub build: Option<BuildConfig>,
    pub command: Option<Command>,
    pub ports: Vec<PortMapping>,
    pub environment: EnvVars,
    pub env_file: StringOrList,
    pub volumes: Vec<VolumeMount>,
    pub networks: ServiceNetworks,
    pub depends_on: DependsOn,
    pub healthcheck: Option<HealthCheck>,
    pub restart: Option<RestartPolicy>,
    pub secrets: Vec<String>,
    pub labels: Labels,
    pub container_name: Option<String>,
    pub user: Option<String>,
    pub working_dir: Option<String>,
    pub cap_add: Vec<String>,
    pub cap_drop: Vec<String>,
    pub logging: Option<LoggingConfig>,
    pub sysctls: Sysctls,
    pub ulimits: Vec<(String, UlimitConfig)>,
    pub extra_hosts: Vec<String>,
    pub stdin_open: Option<bool>,
    pub tty: Option<bool>,
    pub init: Option<bool>,
    pub privileged: Option<bool>,
    pub pid: Option<String>,
    pub ipc: Option<String>,
    pub stop_signal: Option<String>,
    pub stop_grace_period: Option<String>,
    pub platform: Option<String>,
    pub dns: StringOrList,
    pub dns_search: StringOrList,
    pub network_mode: Option<String>,
    pub profiles: Vec<String>,
    pub deploy: Option<DeployConfig>,
}

// ---------------------------------------------------------------------------
// Build config
// ---------------------------------------------------------------------------

/// Service build configuration.
#[derive(Debug, Clone)]
pub enum BuildConfig {
    /// Short form: just the context path.
    Context(String),
    /// Long form with optional dockerfile / args / target.
    Config {
        context: String,
        dockerfile: Option<String>,
        args: EnvVars,
        target: Option<String>,
    },
}

impl BuildConfig {
    /// Return the build context directory.
    pub fn context(&self) -> (r: &str)
        ensures
            r@ == match self {
                BuildConfig::Context(ctx) => ctx@,
                BuildConfig::Config { context, .. } => context@,
            },
    {
        match self {
            BuildConfig::Context(ctx) => ctx.as_str(),
            BuildConfig::Config { context, .. } => context.as_str(),
        }
    }

    /// Return the Dockerfile path relative to the context, if specified.
    pub fn dockerfile(&self) -> (r: Option<&str>)
        ensures
            match self {
                BuildConfig::Config { dockerfile: Some(d), .. } => r matches Some(x) && x@ == d@,
                _ => r is None,
            },
    {
        match self {
            BuildConfig::Context(_) => None,
            BuildConfig::Config { dockerfile, .. } => match dockerfile {
                Some(d) => Some(d.as_str()),
                None => None,
            },
        }
    }
}

// ---------------------------------------------------------------------------
// Command
// ---------------------------------------------------------------------------

/// Container entrypoint / command — either a shell string or exec list.
#[derive(Debug, Clone)]
pub enum Command {
    Shell(String),
    Exec(Vec<String>),
}

impl Command {
    /// The exec-form argument list of a command.
    pub open spec fn exec_view(self) -> Seq<Seq<char>> {
        match self {
            Command::Shell(s) => seq!["sh"@, "-c"@, s@],
            Command::Exec(v) => v.deep_view(),
        }
    }

    /// Convert to an exec-form argument list (wraps shell strings in `sh -c`).
    pub fn to_exec(&self) -> (r: Vec<String>)
        ensures
            r.deep_view() == self.exec_view(),
    {
        match self {
            Command::Shell(s) => {
                let mut v: Vec<String> = Vec::new();
                v.push("sh".to_string());
                v.push("-c".to_string());
                v.push(s.clone());
                assert(v.deep_view() =~= self.exec_view());
                v
            },
            Command::Exec(v) => clone_strings(v),
        }
    }

    /// The flat argument list of a command, shell form kept as one argument.
    pub open spec fn argv_view(self) -> Seq<Seq<char>> {
        match self {
            Command::Shell(s) => seq![s@],
            Command::Exec(v) => v.deep_view(),
        }
    }

    /// Convert to a flat argument list, preserving the shell vs. exec split.
    pub fn to_argv(&self) -> (r: Vec<String>)
        ensures
            r.deep_view() == self.argv_view(),
    {
        match self {
            Command::Shell(s) => {
                let mut v: Vec<String> = Vec::new();
                v.push(s.clone());
                assert(v.deep_view() =~= self.argv_view());
                v
            },
            Command::Exec(v) => clone_strings(v),
        }
    }
}

/// An element-wise copy of a list of strings.
pub fn clone_strings(v: &Vec<String>) -> (r: Vec<String>)
    ensures
        r.deep_view() == v.deep_view(),
        r@ == v@,
{
    let mut r: Vec<String> = Vec::new();
    let mut i: usize = 0;
    while i < v.len()
        invariant
            i <= v@.len(),
            r@ =~= v@.take(i as int),
        decreases v@.len() - i,
    {
        r.push(v[i].clone());
        assert(v@.take(i + 1) =~= v@.take(i as int).push(v@[i as int]));
        i = i + 1;
    }
    assert(v@.take(v@.len() as int) =~= v@);
    assert(r.deep_view() =~= v.deep_view());
    r
}

// ---------------------------------------------------------------------------
// Scalars of the keyed maps
// ---------------------------------------------------------------------------

/// A YAML value as read by the environment and sysctl maps.  Numbers carry
/// the text that YAML renders for them.
#[derive(Debug, Clone)]
pub enum ScalarValue {
    String(String),
    Number(String),
    Bool(bool),
    Null,
    Other,
}

/// `"true"` / `"false"`.
pub open spec fn bool_text(b: bool) -> Seq<char> {
    if b { "true"@ } else { "false"@ }
}

fn bool_string(b: bool) -> (s: String)
    ensures
        s@ == bool_text(b),
{
    if b { "true".to_string() } else { "false".to_string() }
}

/// The text of a scalar, where it has one.
pub open spec fn scalar_text(v: ScalarValue) -> Option<Seq<char>> {
    match v {
        ScalarValue::String(s) => Some(s@),
        ScalarValue::Number(n) => Some(n@),
        ScalarValue::Bool(b) => Some(bool_text(b)),
        _ => None,
    }
}

fn scalar_string(v: &ScalarValue) -> (r: Option<String>)
    ensures
        r.deep_view() == scalar_text(*v),
{
    match v {
        ScalarValue::String(s) => Some(s.clone()),
        ScalarValue::Number(n) => Some(n.clone()),
        ScalarValue::Bool(b) => Some(bool_string(*b)),
        _ => None,
    }
}

// ---------------------------------------------------------------------------
// `KEY=VALUE` entries
// ---------------------------------------------------------------------------

/// `s.splitn(2, '=')`: the key, and the value when there is an `=`.
pub open spec fn split_assignment(s: Seq<char>) -> (Seq<char>, Option<Seq<char>>) {
    match find_char(s, '=') {
        Some(i) => (s.take(i), Some(s.skip(i + 1))),
        None => (s, None),
    }
}

fn split_assignment_exec(s: &String) -> (r: (String, Option<String>))
    ensures
        (r.0@, r.1.deep_view()) == split_assignment(s@),
{
    let v = chars_of(s.as_str());
    match find_char_exec(v.as_slice(), '=') {
        Some(i) => {
            let n = v.len();
            let k = string_of(slice_chars(v.as_slice(), 0, i).as_slice());
            let x = string_of(slice_chars(v.as_slice(), i + 1, n).as_slice());
            assert(v@.subrange(0, i as int) =~= v@.take(i as int));
            assert(v@.subrange(i + 1, n as int) =~= v@.skip(i + 1));
            (k, Some(x))
        },
        None => (s.clone(), None),
    }
}

/// `KEY=VALUE` with a missing value read as the empty string.
pub open spec fn split_assignment_or_empty(s: Seq<char>) -> (Seq<char>, Seq<char>) {
    match split_assignment(s) {
        (k, Some(v)) => (k, v),
        (k, None) => (k, Seq::empty()),
    }
}

fn split_assignment_or_empty_exec(s: &String) -> (r: (String, String))
    ensures
        (r.0@, r.1@) == split_assignment_or_empty(s@),
{
    let (k, v) = split_assignment_exec(s);
    match v {
        Some(x) => (k, x),
        None => (k, String::new()),
    }
}

/// The entries of a `KEY=VALUE` list.
pub open spec fn assignment_entries(v: Seq<Seq<char>>) -> Seq<(Seq<char>, Option<Seq<char>>)> {
    Seq::new(v.len(), |i: int| split_assignment(v[i]))
}

/// The entries of a `KEY=VALUE` list, missing values read as empty.
pub open spec fn assignment_entries_or_empty(v: Seq<Seq<char>>) -> Seq<(Seq<char>, Seq<char>)> {
    Seq::new(v.len(), |i: int| split_assignment_or_empty(v[i]))
}

fn split_all(list: &Vec<String>) -> (r: Vec<(String, Option<String>)>)
    ensures
        r.deep_view() == assignment_entries(list.deep_view()),
{
    let mut r: Vec<(String, Option<String>)> = Vec::new();
    let mut i: usize = 0;
    while i < list.len()
        invariant
            i <= list@.len(),
            r.deep_view() =~= assignment_entries(list.deep_view()).take(i as int),
        decreases list@.len() - i,
    {
        let e = split_assignment_exec(&list[i]);
        r.push(e);
        assert(assignment_entries(list.deep_view()).take(i + 1)
            =~= assignment_entries(list.deep_view()).take(i as int).push(assignment_entries(list.deep_view())[i as int]));
        i = i + 1;
    }
    assert(assignment_entries(list.deep_view()).take(list@.len() as int) =~= assignment_entries(list.deep_view()));
    r
}

fn split_all_or_empty(list: &Vec<String>) -> (r: Vec<(String, String)>)
    ensures
        r.deep_view() == assignment_entries_or_empty(list.deep_view()),
{
    let mut r: Vec<(String, String)> = Vec::new();
    let mut i: usize = 0;
    while i < list.len()
        invariant
            i <= list@.len(),
            r.deep_view() =~= assignment_entries_or_empty(list.deep_view()).take(i as int),
        decreases list@.len() - i,
    {
        let e = split_assignment_or_empty_exec(&list[i]);
        r.push(e);
        assert(assignment_entries_or_empty(list.deep_view()).take(i + 1)
            =~= assignment_entries_or_empty(list.deep_view()).take(i as int).push(assignment_entries_or_empty(list.deep_view())[i as int]));
        i = i + 1;
    }
    assert(assignment_entries_or_empty(list.deep_view()).take(list@.len() as int) =~= assignment_entries_or_empty(list.deep_view()));
    r
}

fn clone_pairs(m: &Vec<(String, String)>) -> (r: Vec<(String, String)>)
    ensures
        r.deep_view() == m.deep_view(),
{
    let mut r: Vec<(String, String)> = Vec::new();
    let mut i: usize = 0;
    while i < m.len()
        invariant
            i <= m@.len(),
            r.deep_view() =~= m.deep_view().take(i as int),
        decreases m@.len() - i,
    {
        r.push((m[i].0.clone(), m[i].1.clone()));
        assert(m.deep_view().take(i + 1) =~= m.deep_view().take(i as int).push(m.deep_view()[i as int]));
        i = i + 1;
    }
    assert(m.deep_view().take(m@.len() as int) =~= m.deep_view());
    r
}

// ---------------------------------------------------------------------------
// Environment variables
// ---------------------------------------------------------------------------

/// Environment variables as a list (`["KEY=VAL"]`) or map (`{KEY: VAL}`).
#[derive(Debug, Clone, Default)]
pub enum EnvVars {
    #[default]
    Empty,
    List(Vec<String>),
    Mapping(Vec<(String, Option<ScalarValue>)>),
}

/// The value a map entry of `environment:` stands for.
pub open spec fn env_value(v: Option<ScalarValue>) -> Option<Seq<char>> {
    match v {
        Some(x) => scalar_text(x),
        None => None,
    }
}

impl EnvVars {
    /// The `(key, value)` entries in order; a `None` value means "inherit".
    pub open spec fn entries(self) -> Seq<(Seq<char>, Option<Seq<char>>)> {
        match self {
            EnvVars::Empty => Seq::empty(),
            EnvVars::List(list) => assignment_entries(list.deep_view()),
            EnvVars::Mapping(m) => Seq::new(m@.len(), |i: int| (m@[i].0@, env_value(m@[i].1))),
        }
    }

    /// Convert to a map from key to optional value.
    ///
    /// A `None` value means "inherit from environment" (key with no `=`);
    /// a key listed twice keeps its last value.
    pub fn to_map(&self) -> (r: Vec<(String, Option<String>)>)
        ensures
            unique_key_views(r@),
            kv_map(r.deep_view()) == kv_map(self.entries()),
    {
        match self {
            EnvVars::Empty => {
                let r: Vec<(String, Option<String>)> = Vec::new();
                assert(r.deep_view() =~= self.entries());
                r
            },
            EnvVars::List(list) => collect_last_wins(split_all(list)),
            EnvVars::Mapping(map) => {
                let mut e: Vec<(String, Option<String>)> = Vec::new();
                let mut i: usize = 0;
                while i < map.len()
                    invariant
                        i <= map@.len(),
                        e.deep_view() =~= self.entries().take(i as int),
                        *self == EnvVars::Mapping(*map),
                    decreases map@.len() - i,
                {
                    let val = match &map[i].1 {
                        Some(v) => scalar_string(v),
                        None => None,
                    };
                    e.push((map[i].0.clone(), val));
                    assert(self.entries().take(i + 1) =~= self.entries().take(i as int).push(self.entries()[i as int]));
                    i = i + 1;
                }
                assert(self.entries().take(map@.len() as int) =~= self.entries());
                collect_last_wins(e)
            },
        }
    }

    /// No entry is present.
    pub open spec fn empty_view(self) -> bool {
        match self {
            EnvVars::Empty => true,
            EnvVars::List(v) => v@.len() == 0,
            EnvVars::Mapping(m) => m@.len() == 0,
        }
    }

    /// Returns true if no entries are present.
    pub fn is_empty(&self) -> (r: bool)
        ensures
            r == self.empty_view(),
    {
        match self {
            EnvVars::Empty => true,
            EnvVars::List(v) => v.len() == 0,
            EnvVars::Mapping(m) => m.len() == 0,
        }
    }
}

// ---------------------------------------------------------------------------
// String-or-list
// ---------------------------------------------------------------------------

/// A field that accepts either a single string or a list of strings.
#[derive(Debug, Clone, Default)]
pub enum StringOrList {
    #[default]
    Empty,
    Single(String),
    List(Vec<String>),
}

impl StringOrList {
    /// The entries as a flat list.
    pub open spec fn list_view(self) -> Seq<Seq<char>> {
        match self {
            StringOrList::Empty => Seq::empty(),
            StringOrList::Single(s) => seq![s@],
            StringOrList::List(v) => v.deep_view(),
        }
    }

    /// Return the entries as a flat `Vec<String>`.
    pub fn to_list(&self) -> (r: Vec<String>)
        ensures
            r.deep_view() == self.list_view(),
    {
        match self {
            StringOrList::Empty => {
                let r: Vec<String> = Vec::new();
                assert(r.deep_view() =~= self.list_view());
                r
            },
            StringOrList::Single(s) => {
                let mut r: Vec<String> = Vec::new();
                r.push(s.clone());
                assert(r.deep_view() =~= self.list_view());
                r
            },
            StringOrList::List(v) => clone_strings(v),
        }
    }

    /// No entry is present: absent, an empty string, or an empty list.
    pub open spec fn empty_view(self) -> bool {
        match self {
            StringOrList::Empty => true,
            StringOrList::Single(s) => s@.len() == 0,
            StringOrList::List(v) => v@.len() == 0,
        }
    }

    /// Returns true if no entries are present.
    pub fn is_empty(&self) -> (r: bool)
        ensures
            r == self.empty_view(),
    {
        match self {
            StringOrList::Empty => true,
            StringOrList::Single(s) => s.as_str().unicode_len() == 0,
            StringOrList::List(v) => v.len() == 0,
        }
    }
}

// ---------------------------------------------------------------------------
// Port mapping
// ---------------------------------------------------------------------------

/// Port mapping — short string form or long object form.
#[derive(Debug, Clone)]
pub enum PortMapping {
    Short(String),
    Long {
        target: u16,
        published: Option<StringOrU16>,
        protocol: Option<String>,
        host_ip: Option<String>,
    },
}

/// A value that may be either a string or a plain u16.
#[derive(Debug, Clone)]
pub enum StringOrU16 {
    String(String),
    Number(u16),
}

impl StringOrU16 {
    /// The value as text.
    pub open spec fn text(self) -> Seq<char> {
        match self {
            StringOrU16::String(s) => s@,
            StringOrU16::Number(n) => decimal(n as nat),
        }
    }

    /// Return the value as a string.
    pub fn as_str_val(&self) -> (r: String)
        ensures
            r@ == self.text(),
    {
        match self {
            StringOrU16::String(s) => s.clone(),
            StringOrU16::Number(n) => decimal_string(*n as u64),
        }
    }
}

/// The text of a number parses back, as `str::parse::<u16>` does, to the
/// number itself.
pub proof fn number_text_parses_back(n: u16)
    ensures
        parse_u16(StringOrU16::Number(n).text()) == Some(n),
{
    lemma_parse_decimal(n as nat, 65535);
}

// ---------------------------------------------------------------------------
// Volume mount
// ---------------------------------------------------------------------------

/// Volume mount — short string form or long object form.
#[derive(Debug, Clone)]
pub enum VolumeMount {
    Short(String),
    Long {
        volume_type: VolumeType,
        source: Option<String>,
        target: String,
        read_only: Option<bool>,
    },
}

/// The second `:`-separated field of a short volume string (the first one
/// when there is no `:`).
pub open spec fn short_volume_target(s: Seq<char>) -> Seq<char> {
    match find_char(s, ':') {
        None => s,
        Some(i) => {
            let r = s.skip(i + 1);
            match find_char(r, ':') {
                None => r,
                Some(j) => r.take(j),
            }
        },
    }
}

impl VolumeMount {
    /// Return the container-side mount target path.
    pub fn target(&self) -> (r: &str)
        ensures
            r@ == match self {
                VolumeMount::Short(s) => short_volume_target(s@),
                VolumeMount::Long { target, .. } => target@,
            },
    {
        match self {
            VolumeMount::Short(s) => {
                let v = chars_of(s.as_str());
                let n = v.len();
                match find_char_exec(v.as_slice(), ':') {
                    None => s.as_str(),
                    Some(i) => {
                        let r = slice_chars(v.as_slice(), i + 1, n);
                        assert(r@ =~= s@.skip(i + 1));
                        match find_char_exec(r.as_slice(), ':') {
                            None => {
                                assert(s@.subrange(i + 1, n as int) =~= r@);
                                s.as_str().substring_char(i + 1, n)
                            },
                            Some(j) => {
                                assert(s@.subrange(i + 1, i + 1 + j) =~= r@.take(j as int));
                                s.as_str().substring_char(i + 1, i + 1 + j)
                            },
                        }
                    },
                }
            },
            VolumeMount::Long { target, .. } => target.as_str(),
        }
    }
}

/// Volume type tag.
#[derive(Debug, Clone, Copy, PartialEq, Eq)]
pub enum VolumeType {
    Volume,
    Bind,
    Tmpfs,
}

// ---------------------------------------------------------------------------
// Networks
// ---------------------------------------------------------------------------

/// Service-level network attachment — list or map form.
#[derive(Debug, Clone, Default)]
pub enum ServiceNetworks {
    #[default]
    Empty,
    List(Vec<String>),
    Mapping(Vec<(String, Option<ServiceNetworkConfig>)>),
}

impl ServiceNetworks {
    /// The attached network names, in order.
    pub open spec fn names_view(self) -> Seq<Seq<char>> {
        match self {
            ServiceNetworks::Empty => Seq::empty(),
            ServiceNetworks::List(v) => v.deep_view(),
            ServiceNetworks::Mapping(m) => Seq::new(m@.len(), |i: int| m@[i].0@),
        }
    }

    /// Return network names.
    pub fn names(&self) -> (r: Vec<String>)
        ensures
            r.deep_view() == self.names_view(),
    {
        match self {
            ServiceNetworks::Empty => {
                let r: Vec<String> = Vec::new();
                assert(r.deep_view() =~= self.names_view());
                r
            },
            ServiceNetworks::List(v) => clone_strings(v),
            ServiceNetworks::Mapping(m) => {
                let mut r: Vec<String> = Vec::new();
                let mut i: usize = 0;
                while i < m.len()
                    invariant
                        i <= m@.len(),
                        *self == ServiceNetworks::Mapping(*m),
                        r.deep_view() =~= self.names_view().take(i as int),
                    decreases m@.len() - i,
                {
                    r.push(m[i].0.clone());
                    assert(self.names_view().take(i + 1) =~= self.names_view().take(i as int).push(self.names_view()[i as int]));
                    i = i + 1;
                }
                assert(self.names_view().take(m@.len() as int) =~= self.names_view());
                r
            },
        }
    }
}

/// Per-network configuration for a service attachment.
#[derive(Debug, Clone)]
pub struct ServiceNetworkConfig {
    pub aliases: Option<Vec<String>>,
    pub ipv4_address: Option<String>,
}

// ---------------------------------------------------------------------------
// depends_on
// ---------------------------------------------------------------------------

/// `depends_on` — list or condition-map form.
#[derive(Debug, Clone, Default)]
pub enum DependsOn {
    #[default]
    Empty,
    List(Vec<String>),
    Mapping(Vec<(String, DependsOnCondition)>),
}

impl DependsOn {
    /// The dependency names, in order.
    pub open spec fn names_view(self) -> Seq<Seq<char>> {
        match self {
            DependsOn::Empty => Seq::empty(),
            DependsOn::List(v) => v.deep_view(),
            DependsOn::Mapping(m) => Seq::new(m@.len(), |i: int| m@[i].0@),
        }
    }

    /// The condition declared for `service`: the first map entry with that
    /// name, `service_started` otherwise.
    pub open spec fn condition_view(self, service: Seq<char>) -> ServiceCondition {
        match self {
            DependsOn::Mapping(m) => if exists|i: int| 0 <= i < m@.len() && (#[trigger] m@[i]).0@ == service {
                m@[choose|i: int| 0 <= i < m@.len() && (#[trigger] m@[i]).0@ == service
                    && forall|j: int| 0 <= j < i ==> m@[j].0@ != service].1.condition
            } else {
                ServiceCondition::ServiceStarted
            },
            _ => ServiceCondition::ServiceStarted,
        }
    }

    /// Return the list of dependency service names.
    pub fn service_names(&self) -> (r: Vec<String>)
        ensures
            r.deep_view() == self.names_view(),
    {
        match self {
            DependsOn::Empty => {
                let r: Vec<String> = Vec::new();
                assert(r.deep_view() =~= self.names_view());
                r
            },
            DependsOn::List(v) => clone_strings(v),
            DependsOn::Mapping(m) => {
                let mut r: Vec<String> = Vec::new();
                let mut i: usize = 0;
                while i < m.len()
                    invariant
                        i <= m@.len(),
                        *self == DependsOn::Mapping(*m),
                        r.deep_view() =~= self.names_view().take(i as int),
                    decreases m@.len() - i,
                {
                    r.push(m[i].0.clone());
                    assert(self.names_view().take(i + 1) =~= self.names_view().take(i as int).push(self.names_view()[i as int]));
                    i = i + 1;
                }
                assert(self.names_view().take(m@.len() as int) =~= self.names_view());
                r
            },
        }
    }

    /// Return the condition for a named dependency (defaults to `service_started`).
    pub fn condition_for(&self, service: &str) -> (r: ServiceCondition)
        ensures
            r == self.condition_view(service@),
    {
        match self {
            DependsOn::Mapping(m) => {
                let mut i: usize = 0;
                while i < m.len()
                    invariant
                        i <= m@.len(),
                        *self == DependsOn::Mapping(*m),
                        forall|j: int| 0 <= j < i ==> (#[trigger] m@[j]).0@ != service@,
                    decreases m@.len() - i,
                {
                    if crate::text::str_eq(m[i].0.as_str(), service) {
                        let ghost c = choose|c: int| 0 <= c < m@.len() && (#[trigger] m@[c]).0@ == service@
                            && forall|j: int| 0 <= j < c ==> m@[j].0@ != service@;
                        proof {
                            assert(0 <= i < m@.len() && m@[i as int].0@ == service@
                                && forall|j: int| 0 <= j < i ==> m@[j].0@ != service@);
                            if c < i {
                                assert(m@[c].0@ != service@);
                            } else if c > i {
                                assert(m@[i as int].0@ != service@);
                            }
                            assert(c == i);
                            assert(*self == DependsOn::Mapping(*m));
                            assert(self.condition_view(service@) == m@[c].1.condition);
                        }
                        return m[i].1.condition;
                    }
                    i = i + 1;
                }
                ServiceCondition::ServiceStarted
            },
            _ => ServiceCondition::ServiceStarted,
        }
    }
}

/// One entry in the map form of `depends_on`.
#[derive(Debug, Clone)]
pub struct DependsOnCondition {
    pub condition: ServiceCondition,
}

/// Readiness condition for a dependency.
#[derive(Debug, Clone, Copy, Default, PartialEq, Eq)]
pub enum ServiceCondition {
    #[default]
    ServiceStarted,
    ServiceHealthy,
    ServiceCompletedSuccessfully,
}

// ---------------------------------------------------------------------------
// Healthcheck
// ---------------------------------------------------------------------------

/// Service healthcheck configuration.
#[derive(Debug, Clone)]
pub struct HealthCheck {
    pub test: Command,
    pub interval: Option<String>,
    pub timeout: Option<String>,
    pub retries: Option<u32>,
    pub start_period: Option<String>,
    pub disable: Option<bool>,
}

// ---------------------------------------------------------------------------
// Restart policy
// ---------------------------------------------------------------------------

/// Container restart policy.
#[derive(Debug, Clone, Copy, PartialEq, Eq)]
pub enum RestartPolicy {
    No,
    Always,
    OnFailure,
    UnlessStopped,
}

// ---------------------------------------------------------------------------
// Labels
// ---------------------------------------------------------------------------

/// Labels — list or map form.
#[derive(Debug, Clone, Default)]
pub enum Labels {
    #[default]
    Empty,
    List(Vec<String>),
    Mapping(Vec<(String, String)>),
}

impl Labels {
    /// The `(key, value)` entries in order.
    pub open spec fn entries(self) -> Seq<(Seq<char>, Seq<char>)> {
        match self {
            Labels::Empty => Seq::empty(),
            Labels::List(list) => assignment_entries_or_empty(list.deep_view()),
            Labels::Mapping(m) => m.deep_view(),
        }
    }

    /// Convert to a flat map; a key listed twice keeps its last value.
    pub fn to_map(&self) -> (r: Vec<(String, String)>)
        ensures
            unique_key_views(r@),
            kv_map(r.deep_view()) == kv_map(self.entries()),
    {
        match self {
            Labels::Empty => {
                let r: Vec<(String, String)> = Vec::new();
                assert(r.deep_view() =~= self.entries());
                r
            },
            Labels::List(list) => collect_last_wins(split_all_or_empty(list)),
            Labels::Mapping(m) => collect_last_wins(clone_pairs(m)),
        }
    }

    /// No entry is present.
    pub open spec fn empty_view(self) -> bool {
        match self {
            Labels::Empty => true,
            Labels::List(v) => v@.len() == 0,
            Labels::Mapping(m) => m@.len() == 0,
        }
    }

    /// True when no entries are present.
    pub fn is_empty(&self) -> (r: bool)
        ensures
            r == self.empty_view(),
    {
        match self {
            Labels::Empty => true,
            Labels::List(v) => v.len() == 0,
            Labels::Mapping(m) => m.len() == 0,
        }
    }
}

// ---------------------------------------------------------------------------
// Logging
// ---------------------------------------------------------------------------

/// Logging driver configuration.
#[derive(Debug, Clone, Default)]
pub struct LoggingConfig {
    pub driver: Option<String>,
    pub options: Vec<(String, String)>,
}

// ---------------------------------------------------------------------------
// Sysctls
// ---------------------------------------------------------------------------

/// `sysctls` accepts either a list (`["net.core.somaxconn=1024"]`) or a map.
#[derive(Debug, Clone, Default)]
pub enum Sysctls {
    #[default]
    Empty,
    List(Vec<String>),
    Mapping(Vec<(String, String)>),
}

impl Sysctls {

    /// No entry is present.
    pub open spec fn empty_view(self) -> bool {
        match self {
            Sysctls::Empty => true,
            Sysctls::List(v) => v@.len() == 0,
            Sysctls::Mapping(m) => m@.len() == 0,
        }
    }

    /// True when no entry is present.
    pub fn is_empty(&self) -> (r: bool)
        ensures
            r == self.empty_view(),
    {
        match self {
            Sysctls::Empty => true,
            Sysctls::List(v) => v.len() == 0,
            Sysctls::Mapping(m) => m.len() == 0,
        }
    }
    /// The `(name, value)` entries in order.
    pub open spec fn entries(self) -> Seq<(Seq<char>, Seq<char>)> {
        match self {
            Sysctls::Empty => Seq::empty(),
            Sysctls::List(list) => assignment_entries_or_empty(list.deep_view()),
            Sysctls::Mapping(m) => m.deep_view(),
        }
    }

    /// Return as a flat map (`sysctl_name → value`).
    pub fn to_map(&self) -> (r: Vec<(String, String)>)
        ensures
            unique_key_views(r@),
            kv_map(r.deep_view()) == kv_map(self.entries()),
    {
        match self {
            Sysctls::Empty => {
                let r: Vec<(String, String)> = Vec::new();
                assert(r.deep_view() =~= self.entries());
                r
            },
            Sysctls::List(list) => collect_last_wins(split_all_or_empty(list)),
            Sysctls::Mapping(m) => collect_last_wins(clone_pairs(m)),
        }
    }
}

// ---------------------------------------------------------------------------
// Ulimits
// ---------------------------------------------------------------------------

/// Ulimit value — either a single number (soft == hard) or an explicit soft/hard pair.
#[derive(Debug, Clone, Copy)]
pub enum UlimitConfig {
    Single(i64),
    Pair { soft: i64, hard: i64 },
}

impl DeepView for UlimitConfig {
    type V = UlimitConfig;

    open spec fn deep_view(&self) -> UlimitConfig {
        *self
    }
}

impl UlimitConfig {
    /// Soft limit.
    pub fn soft(&self) -> (r: i64)
        ensures
            r == match self {
                UlimitConfig::Single(n) => *n,
                UlimitConfig::Pair { soft, .. } => *soft,
            },
    {
        match self {
            UlimitConfig::Single(n) => *n,
            UlimitConfig::Pair { soft, .. } => *soft,
        }
    }

    /// Hard limit.
    pub fn hard(&self) -> (r: i64)
        ensures
            r == match self {
                UlimitConfig::Single(n) => *n,
                UlimitConfig::Pair { hard, .. } => *hard,
            },
    {
        match self {
            UlimitConfig::Single(n) => *n,
            UlimitConfig::Pair { hard, .. } => *hard,
        }
    }
}

// ---------------------------------------------------------------------------
// Deploy
// ---------------------------------------------------------------------------

/// Basic `deploy:` section (Swarm / compose-spec).
#[derive(Debug, Clone, Default)]
pub struct DeployConfig {
    pub replicas: Option<u32>,
    pub resources: Option<ResourcesConfig>,
    pub restart_policy: Option<DeployRestartPolicy>,
    pub mode: Option<String>,
}

/// Resource limits and reservations.
#[derive(Debug, Clone, Default)]
pub struct ResourcesConfig {
    pub limits: Option<ResourceSpec>,
    pub reservations: Option<ResourceSpec>,
}

/// A single resource specification (CPUs + memory).
#[derive(Debug, Clone, Default)]
pub struct ResourceSpec {
    pub cpus: Option<String>,
    pub memory: Option<String>,
}

/// Restart policy inside `deploy:`.
#[derive(Debug, Clone, Default)]
pub struct DeployRestartPolicy {
    pub condition: Option<String>,
    pub delay: Option<String>,
    pub max_attempts: Option<u32>,
    pub window: Option<String>,
}

// ---------------------------------------------------------------------------
// Top-level resource configs
// ---------------------------------------------------------------------------

/// Named volume configuration.
#[derive(Debug, Clone, Default)]
pub struct VolumeConfig {
    pub driver: Option<String>,
    pub driver_opts: Vec<(String, String)>,
    pub external: Option<bool>,
    pub name: Option<String>,
}

/// Named network configuration.
#[derive(Debug, Clone, Default)]
pub struct NetworkConfig {
    pub driver: Option<String>,
    pub external: Option<bool>,
    pub name: Option<String>,
    pub internal: Option<bool>,
}

/// Named secret configuration.
#[derive(Debug, Clone)]
pub struct SecretConfig {
    pub file: Option<String>,
    pub external: Option<bool>,
    pub name: Option<String>,
}

} // verus!
