//! What the engine derives from a compose file before it talks to the
//! container runtime: container names, mounts, networks, the container
//! configuration, and the build-context ignore rules.
use vstd::prelude::*;
use super::types::{ComposeFile, RestartPolicy, SecretConfig, Service, VolumeMount};
use crate::env_file::{merge_env, merged_env};
use crate::error::{ComposeError, Result};
use crate::kv::{kv_get, kv_keys, kv_lookup, kv_map, kv_set, unique_key_views, unique_keys};
use crate::ports::{grouped_bindings, parse_ports, ports_spec, to_bollard, ParsedPort, ParsedPortView, PortBinding};
use crate::text::{chars_of, lines, lines_exec, starts_with, starts_with_exec, str_eq, string_of, trim, trim_chars};

verus! {

// ---------------------------------------------------------------------------
// Names
// ---------------------------------------------------------------------------

/// The container of a service: its `container_name:`, else
/// `<project>-<service>`.
pub open spec fn container_name_spec(project: Seq<char>, service_name: Seq<char>, service: Service) -> Seq<char> {
    match service.container_name {
        Some(n) => n@,
        None => project + "-"@ + service_name,
    }
}

pub fn container_name(project: &str, service_name: &str, service: &Service) -> (r: String)
    ensures
        r@ == container_name_spec(project@, service_name@, *service),
{
    match &service.container_name {
        Some(n) => n.clone(),
        None => {
            let mut s = project.to_string();
            s.append("-");
            s.append(service_name);
            s
        },
    }
}

/// The runtime name of network `network`: the `name:` it is given in the
/// top-level `networks:` section, else its own name.
pub open spec fn network_name_spec(network: Seq<char>, file: ComposeFile) -> Seq<char> {
    match kv_lookup(file.networks@, network) {
        Some(Some(c)) => match c.name {
            Some(n) => n@,
            None => network,
        },
        _ => network,
    }
}

/// Resolve a service-level network name to the actual network name
/// (handling `networks.<name>.name` overrides).
pub fn resolve_network_name(network: &str, file: &ComposeFile) -> (r: String)
    ensures
        r@ == network_name_spec(network@, *file),
{
    match kv_get(&file.networks, network) {
        Some(Some(c)) => match &c.name {
            Some(n) => n.clone(),
            None => network.to_string(),
        },
        _ => network.to_string(),
    }
}

/// The `network_mode` of a service's container, and the first named
/// network to attach it to: an explicit `network_mode:` attaches none.
pub open spec fn network_mode_spec(service: Service, file: ComposeFile) -> (Option<Seq<char>>, Option<Seq<char>>) {
    match service.network_mode {
        Some(m) => (Some(m@), None),
        None => {
            let names = service.networks.names_view();
            if names.len() == 0 {
                (None, None)
            } else {
                (None, Some(network_name_spec(names[0], file)))
            }
        },
    }
}

/// Determine `network_mode` and the first named network to attach.
pub fn resolve_network_mode(service: &Service, file: &ComposeFile) -> (r: (Option<String>, Option<String>))
    ensures
        (r.0.deep_view(), r.1.deep_view()) == network_mode_spec(*service, *file),
{
    if let Some(mode) = &service.network_mode {
        return (Some(mode.clone()), None);
    }
    let networks = service.networks.names();
    if networks.len() == 0 {
        (None, None)
    } else {
        let first = resolve_network_name(networks[0].as_str(), file);
        (None, Some(first))
    }
}

// ---------------------------------------------------------------------------
// Mounts
// ---------------------------------------------------------------------------

/// The bind of one volume: a short form as written; a long form as
/// `source:target`, with `:ro` when read-only.
pub open spec fn bind_spec(v: VolumeMount) -> Seq<char> {
    match v {
        VolumeMount::Short(s) => s@,
        VolumeMount::Long { source, target, read_only, .. } => {
            let src = match source {
                Some(x) => x@,
                None => Seq::empty(),
            };
            src + ":"@ + target@ + (if read_only == Some(true) { ":ro"@ } else { Seq::empty() })
        },
    }
}

/// Build the bind-mount list: one bind per volume, in order.
pub fn build_binds(service: &Service) -> (r: Vec<String>)
    ensures
        r.deep_view() == Seq::new(service.volumes@.len(), |i: int| bind_spec(service.volumes@[i])),
{
    let mut out: Vec<String> = Vec::new();
    let mut i: usize = 0;
    while i < service.volumes.len()
        invariant
            i <= service.volumes@.len(),
            out@.len() == i,
            forall|k: int| 0 <= k < i ==> (#[trigger] out@[k])@ == bind_spec(service.volumes@[k]),
        decreases service.volumes@.len() - i,
    {
        let b = match &service.volumes[i] {
            VolumeMount::Short(s) => s.clone(),
            VolumeMount::Long { source, target, read_only, .. } => {
                let mut s = match source {
                    Some(x) => x.clone(),
                    None => String::new(),
                };
                s.append(":");
                s.append(target.as_str());
                if let Some(true) = read_only {
                    s.append(":ro");
                }
                s
            },
        };
        out.push(b);
        i = i + 1;
    }
    assert(out.deep_view() =~= Seq::new(service.volumes@.len(), |i: int| bind_spec(service.volumes@[i])));
    out
}

pub const SECRETS_DIR: &'static str = ":/run/secrets/";
pub const READ_ONLY_SUFFIX: &'static str = ":ro";

/// The secret mounts of the services `names` refer to: each secret the file
/// defines with a host `file:` is mounted read-only at `/run/secrets/<name>`;
/// other secrets (external ones included) mount nothing.
pub open spec fn secret_binds_spec(names: Seq<String>, secrets: Seq<(String, SecretConfig)>) -> Seq<Seq<char>>
    decreases names.len(),
{
    if names.len() == 0 {
        Seq::empty()
    } else {
        let rest = secret_binds_spec(names.drop_last(), secrets);
        let name = names.last()@;
        match kv_lookup(secrets, name) {
            Some(SecretConfig { file: Some(h), .. }) => rest.push(h@ + SECRETS_DIR@ + name + READ_ONLY_SUFFIX@),
            _ => rest,
        }
    }
}

/// Build secret bind-mounts (`/run/secrets/<name>`).
pub fn build_secret_binds(service: &Service, file: &ComposeFile) -> (r: Vec<String>)
    ensures
        r.deep_view() == secret_binds_spec(service.secrets@, file.secrets@),
{
    let mut binds: Vec<String> = Vec::new();
    let mut i: usize = 0;
    while i < service.secrets.len()
        invariant
            i <= service.secrets@.len(),
            binds.deep_view() == secret_binds_spec(service.secrets@.take(i as int), file.secrets@),
        decreases service.secrets@.len() - i,
    {
        let name = &service.secrets[i];
        assert(service.secrets@.take(i + 1).drop_last() =~= service.secrets@.take(i as int));
        assert(service.secrets@.take(i + 1).last() == *name);
        match kv_get(&file.secrets, name.as_str()) {
            Some(config) => match &config.file {
                Some(host_path) => {
                    let mut b = host_path.clone();
                    b.append(SECRETS_DIR);
                    b.append(name.as_str());
                    b.append(READ_ONLY_SUFFIX);
                    let ghost before = binds.deep_view();
                    binds.push(b);
                    assert(binds.deep_view() =~= before.push(b@));
                },
                None => {},
            },
            None => {},
        }
        i = i + 1;
    }
    assert(service.secrets@.take(service.secrets@.len() as int) =~= service.secrets@);
    binds
}

// ---------------------------------------------------------------------------
// Build-context ignore rules
// ---------------------------------------------------------------------------

/// The patterns of a `.dockerignore` text: its trimmed lines, blank lines
/// and `#` comments left out.
pub open spec fn ignore_patterns_spec(ls: Seq<Seq<char>>) -> Seq<Seq<char>>
    decreases ls.len(),
{
    if ls.len() == 0 {
        Seq::empty()
    } else {
        let rest = ignore_patterns_spec(ls.drop_last());
        let t = trim(ls.last());
        if t.len() == 0 || t[0] == '#' { rest } else { rest.push(t) }
    }
}

/// Reads the patterns of a `.dockerignore` file's contents.
pub fn dockerignore_patterns(content: &str) -> (r: Vec<String>)
    ensures
        r.deep_view() == ignore_patterns_spec(lines(content@)),
{
    let ls = lines_exec(content);
    let ghost lv = ls.deep_view();
    let mut r: Vec<String> = Vec::new();
    let mut i: usize = 0;
    while i < ls.len()
        invariant
            lv == ls.deep_view(),
            lv == lines(content@),
            i <= lv.len(),
            r.deep_view() == ignore_patterns_spec(lv.take(i as int)),
        decreases lv.len() - i,
    {
        assert(lv.take(i + 1).drop_last() =~= lv.take(i as int));
        assert(lv.take(i + 1).last() == ls@[i as int]@);
        let t = trim_chars(ls[i].as_slice());
        if !(t.len() == 0 || t[0] == '#') {
            let ghost before = r.deep_view();
            let s = string_of(t.as_slice());
            r.push(s);
            assert(r.deep_view() =~= before.push(t@));
        }
        i = i + 1;
    }
    assert(lv.take(lv.len() as int) =~= lv);
    r
}

/// Whether `pattern` excludes `path`: a pattern ending in `/` excludes the
/// paths it prefixes; another one excludes itself and the paths below it.
pub open spec fn pattern_excludes(path: Seq<char>, pattern: Seq<char>) -> bool {
    if pattern.len() > 0 && pattern.last() == '/' {
        starts_with(path, pattern)
    } else {
        path == pattern || starts_with(path, pattern + "/"@)
    }
}

/// Simple prefix / exact matching of build-context paths against
/// `.dockerignore` patterns.
pub fn is_ignored(path: &str, patterns: &[String]) -> (r: bool)
    ensures
        r == exists|k: int| 0 <= k < patterns@.len() && pattern_excludes(path@, #[trigger] patterns@[k]@),
{
    let pv = chars_of(path);
    let mut k: usize = 0;
    while k < patterns.len()
        invariant
            k <= patterns@.len(),
            pv@ == path@,
            forall|j: int| 0 <= j < k ==> !pattern_excludes(path@, #[trigger] patterns@[j]@),
        decreases patterns@.len() - k,
    {
        let pattern = &patterns[k];
        let qv = chars_of(pattern.as_str());
        if qv.len() > 0 && qv[qv.len() - 1] == '/' {
            if starts_with_exec(pv.as_slice(), qv.as_slice()) {
                assert(pattern_excludes(path@, patterns@[k as int]@));
                return true;
            }
        } else {
            let mut with_slash = qv.clone();
            with_slash.push('/');
            assert(with_slash@ =~= pattern@ + "/"@) by {
                reveal_strlit("/");
            }
            if str_eq(path, pattern.as_str()) || starts_with_exec(pv.as_slice(), with_slash.as_slice()) {
                assert(pattern_excludes(path@, patterns@[k as int]@));
                return true;
            }
        }
        k = k + 1;
    }
    false
}

// ---------------------------------------------------------------------------
// Container configuration
// ---------------------------------------------------------------------------

pub const PROJECT_LABEL: &'static str = "lynx.compose.project";
pub const SERVICE_LABEL: &'static str = "lynx.compose.service";

/// `Some(s)` unless `s` is empty.
pub open spec fn some_if_any<A>(s: Seq<A>) -> Option<Seq<A>> {
    if s.len() == 0 { None } else { Some(s) }
}

fn some_if_any_vec<T: DeepView>(v: Vec<T>) -> (r: Option<Vec<T>>)
    ensures
        r.deep_view() == some_if_any(v.deep_view()),
{
    if v.len() == 0 { None } else { Some(v) }
}

fn copy_opt_string(o: &Option<String>) -> (r: Option<String>)
    ensures
        r == *o,
{
    match o {
        Some(s) => Some(s.clone()),
        None => None,
    }
}

/// The log driver settings handed to the runtime.
#[derive(Debug, Clone)]
pub struct LogConfigPlan {
    pub typ: Option<String>,
    /// Driver options; `None` when there are none.
    pub config: Option<Vec<(String, String)>>,
}

/// One ulimit handed to the runtime.
#[derive(Debug, Clone)]
pub struct UlimitPlan {
    pub name: String,
    pub soft: i64,
    pub hard: i64,
}

impl DeepView for UlimitPlan {
    type V = (Seq<char>, i64, i64);

    open spec fn deep_view(&self) -> (Seq<char>, i64, i64) {
        (self.name@, self.soft, self.hard)
    }
}

/// Everything the runtime is told when a service's container is created.
/// A list that would be empty is left out (`None`).
#[derive(Debug, Clone)]
pub struct ContainerPlan {
    pub image: String,
    pub env: Option<Vec<String>>,
    pub cmd: Option<Vec<String>>,
    pub labels: Vec<(String, String)>,
    pub exposed_ports: Option<Vec<String>>,
    pub tty: Option<bool>,
    pub open_stdin: Option<bool>,
    pub user: Option<String>,
    pub working_dir: Option<String>,
    pub stop_signal: Option<String>,
    pub platform: Option<String>,
    /// The network attached at creation (the others are connected after).
    pub first_network: Option<String>,
    pub binds: Option<Vec<String>>,
    pub network_mode: Option<String>,
    pub restart_policy: Option<RestartPolicy>,
    pub port_bindings: Option<Vec<(String, Vec<PortBinding>)>>,
    pub cap_add: Option<Vec<String>>,
    pub cap_drop: Option<Vec<String>>,
    pub sysctls: Option<Vec<(String, String)>>,
    pub ulimits: Option<Vec<UlimitPlan>>,
    pub extra_hosts: Option<Vec<String>>,
    pub dns: Option<Vec<String>>,
    pub dns_search: Option<Vec<String>>,
    pub init: Option<bool>,
    pub privileged: Option<bool>,
    pub log_config: Option<LogConfigPlan>,
    pub pid_mode: Option<String>,
    pub ipc_mode: Option<String>,
}

/// The binds of a service: its volumes, then its secrets.
pub open spec fn all_binds_spec(service: Service, file: ComposeFile) -> Seq<Seq<char>> {
    Seq::new(service.volumes@.len(), |i: int| bind_spec(service.volumes@[i]))
        + secret_binds_spec(service.secrets@, file.secrets@)
}

/// The ulimits of a service, as `(name, soft, hard)`.
pub open spec fn ulimits_spec(service: Service) -> Seq<(Seq<char>, i64, i64)> {
    Seq::new(service.ulimits@.len(), |i: int| (
        service.ulimits@[i].0@,
        match service.ulimits@[i].1 {
            super::types::UlimitConfig::Single(n) => n,
            super::types::UlimitConfig::Pair { soft, .. } => soft,
        },
        match service.ulimits@[i].1 {
            super::types::UlimitConfig::Single(n) => n,
            super::types::UlimitConfig::Pair { hard, .. } => hard,
        },
    ))
}

/// `plan` is the container configuration of `service_name` in `project`
/// whose ports parsed to `ports`, the env files having given `file_vars`.
pub open spec fn plan_matches(
    project: Seq<char>,
    service_name: Seq<char>,
    service: Service,
    file: ComposeFile,
    file_vars: Seq<(Seq<char>, Seq<char>)>,
    ports: Seq<ParsedPortView>,
    plan: ContainerPlan,
) -> bool {
    &&& service.image matches Some(img) && plan.image@ == img@
    &&& exists|sv: Seq<(Seq<char>, Option<Seq<char>>)>| unique_keys(sv)
        && kv_map(sv) == kv_map(service.environment.entries())
        && #[trigger] plan.env.deep_view() == some_if_any(merged_env(sv, file_vars))
    &&& plan.cmd.deep_view() == match service.command {
        Some(c) => Some(c.exec_view()),
        None => None,
    }
    &&& unique_key_views(plan.labels@)
    &&& kv_map(plan.labels.deep_view()) == kv_map(service.labels.entries())
        .insert(PROJECT_LABEL@, project).insert(SERVICE_LABEL@, service_name)
    &&& plan.port_bindings.deep_view() == some_if_any(grouped_bindings(ports))
    &&& plan.exposed_ports.deep_view() == some_if_any(Seq::new(grouped_bindings(ports).len(), |i: int| grouped_bindings(ports)[i].0))
    &&& plan.tty == service.tty
    &&& plan.open_stdin == service.stdin_open
    &&& plan.user == service.user
    &&& plan.working_dir == service.working_dir
    &&& plan.stop_signal == service.stop_signal
    &&& plan.platform == service.platform
    &&& (plan.network_mode.deep_view(), plan.first_network.deep_view()) == network_mode_spec(service, file)
    &&& plan.binds.deep_view() == some_if_any(all_binds_spec(service, file))
    &&& plan.restart_policy == service.restart
    &&& plan.cap_add.deep_view() == some_if_any(service.cap_add.deep_view())
    &&& plan.cap_drop.deep_view() == some_if_any(service.cap_drop.deep_view())
    &&& match plan.sysctls {
        Some(v) => unique_key_views(v@) && v@.len() > 0 && kv_map(v.deep_view()) == kv_map(service.sysctls.entries()),
        None => kv_map(service.sysctls.entries()) == Map::<Seq<char>, Seq<char>>::empty(),
    }
    &&& plan.ulimits.deep_view() == some_if_any(ulimits_spec(service))
    &&& plan.extra_hosts.deep_view() == some_if_any(service.extra_hosts.deep_view())
    &&& plan.dns.deep_view() == some_if_any(service.dns.list_view())
    &&& plan.dns_search.deep_view() == some_if_any(service.dns_search.list_view())
    &&& plan.init == service.init
    &&& plan.privileged == service.privileged
    &&& match service.logging {
        None => plan.log_config is None,
        Some(l) => plan.log_config matches Some(c) && c.typ == l.driver
            && c.config.deep_view() == some_if_any(l.options.deep_view()),
    }
    &&& plan.pid_mode == service.pid
    &&& plan.ipc_mode == service.ipc
}

/// The container configuration of a service, as the engine creates it:
/// the image (required), the service environment over the env-file
/// variables, volume and secret binds, published ports, restart and log
/// settings, network attachment, project and service labels, ulimits,
/// sysctls, hosts and DNS entries, and the process options.
#[verifier::rlimit(40)]
pub fn plan_container(
    project: &str,
    service_name: &str,
    service: &Service,
    file: &ComposeFile,
    env_file_vars: Vec<(String, String)>,
) -> (r: Result<ContainerPlan>)
    ensures
        match r {
            Ok(plan) => exists|ps: Seq<ParsedPortView>|
                ports_spec(service.ports@) == Ok::<Seq<ParsedPortView>, Seq<char>>(ps)
                && #[trigger] plan_matches(project@, service_name@, *service, *file, env_file_vars.deep_view(), ps, plan),
            Err(ComposeError::NoImageOrBuild(n)) => service.image is None && n@ == service_name@,
            Err(ComposeError::InvalidPort(m)) => service.image is Some
                && ports_spec(service.ports@) == Err::<Seq<ParsedPortView>, Seq<char>>(m@),
            Err(_) => false,
        },
{
    let ghost fv = env_file_vars.deep_view();
    let image = match &service.image {
        Some(i) => i.clone(),
        None => return Err(ComposeError::NoImageOrBuild(service_name.to_string())),
    };

    // environment
    let sv = service.environment.to_map();
    let ghost svd = sv.deep_view();
    proof {
        assert(unique_keys(svd)) by {
            assert forall|a: int, b: int| 0 <= a < b < svd.len() implies (#[trigger] svd[a]).0 != (#[trigger] svd[b]).0 by {
                assert(svd[a].0 == sv@[a].0@ && svd[b].0 == sv@[b].0@);
            }
        }
    }
    let env = some_if_any_vec(merge_env(sv, env_file_vars));

    // binds
    let mut binds = build_binds(service);
    let mut secret_binds = build_secret_binds(service, file);
    let ghost b0 = binds.deep_view();
    let ghost s0 = secret_binds.deep_view();
    binds.append(&mut secret_binds);
    assert(binds.deep_view() =~= b0 + s0);
    let binds = some_if_any_vec(binds);

    // ports
    let parsed = match parse_ports(service.ports.as_slice()) {
        Ok(p) => p,
        Err(e) => return Err(e),
    };
    let ghost ps = parsed.deep_view();
    proof {
        assert(parsed@.map_values(|p: ParsedPort| p@) =~= ps);
    }
    let (port_bindings, exposed_ports) = to_bollard(parsed.as_slice());
    let ghost g = grouped_bindings(ps);
    assert(exposed_ports.deep_view() =~= Seq::new(g.len(), |i: int| g[i].0));
    let port_bindings = some_if_any_vec(port_bindings);
    let exposed_ports = some_if_any_vec(exposed_ports);

    // log driver
    let log_config = match &service.logging {
        Some(l) => Some(LogConfigPlan {
            typ: copy_opt_string(&l.driver),
            config: some_if_any_vec(copy_pairs(&l.options)),
        }),
        None => None,
    };

    // networks
    let (network_mode, first_network) = resolve_network_mode(service, file);

    // labels with project tracking
    let mut labels = service.labels.to_map();
    kv_set(&mut labels, PROJECT_LABEL.to_string(), project.to_string());
    kv_set(&mut labels, SERVICE_LABEL.to_string(), service_name.to_string());

    // ulimits
    let mut ulimits: Vec<UlimitPlan> = Vec::new();
    let mut i: usize = 0;
    while i < service.ulimits.len()
        invariant
            i <= service.ulimits@.len(),
            ulimits@.len() == i,
            forall|k: int| 0 <= k < i ==> (#[trigger] ulimits@[k]).deep_view() == ulimits_spec(*service)[k],
        decreases service.ulimits@.len() - i,
    {
        let (name, cfg) = &service.ulimits[i];
        ulimits.push(UlimitPlan { name: name.clone(), soft: cfg.soft(), hard: cfg.hard() });
        i = i + 1;
    }
    assert(ulimits.deep_view() =~= ulimits_spec(*service));
    let ulimits = some_if_any_vec(ulimits);

    // sysctls
    let sysctls = service.sysctls.to_map();
    let sysctls = if sysctls.len() == 0 {
        assert(sysctls.deep_view() =~= Seq::<(Seq<char>, Seq<char>)>::empty());
        None
    } else {
        Some(sysctls)
    };

    let extra_hosts = some_if_any_vec(crate::compose::types::clone_strings(&service.extra_hosts));
    let dns = some_if_any_vec(service.dns.to_list());
    let dns_search = some_if_any_vec(service.dns_search.to_list());
    let cap_add = some_if_any_vec(crate::compose::types::clone_strings(&service.cap_add));
    let cap_drop = some_if_any_vec(crate::compose::types::clone_strings(&service.cap_drop));
    let cmd = match &service.command {
        Some(c) => Some(c.to_exec()),
        None => None,
    };

    let plan = ContainerPlan {
        image,
        env,
        cmd,
        labels,
        exposed_ports,
        tty: service.tty,
        open_stdin: service.stdin_open,
        user: copy_opt_string(&service.user),
        working_dir: copy_opt_string(&service.working_dir),
        stop_signal: copy_opt_string(&service.stop_signal),
        platform: copy_opt_string(&service.platform),
        first_network,
        binds,
        network_mode,
        restart_policy: service.restart,
        port_bindings,
        cap_add,
        cap_drop,
        sysctls,
        ulimits,
        extra_hosts,
        dns,
        dns_search,
        init: service.init,
        privileged: service.privileged,
        log_config,
        pid_mode: copy_opt_string(&service.pid),
        ipc_mode: copy_opt_string(&service.ipc),
    };
    assert(plan_matches(project@, service_name@, *service, *file, fv, ps, plan));
    Ok(plan)
}

fn copy_pairs(m: &Vec<(String, String)>) -> (r: Vec<(String, String)>)
    ensures
        r.deep_view() == m.deep_view(),
{
    let mut r: Vec<(String, String)> = Vec::new();
    let mut i: usize = 0;
    while i < m.len()
        invariant
            i <= m@.len(),
            r.deep_view() =~= m.deep_view().take(i as int),
        decreases m@.len() - i,
    {
        r.push((m[i].0.clone(), m[i].1.clone()));
        assert(m.deep_view().take(i + 1) =~= m.deep_view().take(i as int).push(m.deep_view()[i as int]));
        i = i + 1;
    }
    assert(m.deep_view().take(m@.len() as int) =~= m.deep_view());
    r
}

} // verus!
