//! The full compose-spec project model: parsing results are resolved here
//! (`extends:` chains, merging of included files, start order).

pub mod types;
pub mod copy;
pub mod volume;
pub mod chain;

use vstd::prelude::*;
use types::{ComposeFile, DependsOn, Service, StringOrList};
use crate::error::{ComposeError, Result};
use crate::graph::{
    edges_indexed, lemma_index_order_names, lemma_name_order_index, names_at, names_unique,
    topo_order, valid_index_order, valid_name_order,
};
use crate::kv::{absorb, absorb_entries, key_views, kv_find, kv_lookup, kv_map, lemma_absorb_lookup, lemma_kv_lookup_at, lemma_kv_lookup_none, unique_key_views};
use crate::copying::ExactCopy;
use crate::text::str_eq;

verus! {

// ---------------------------------------------------------------------------
// Start order
// ---------------------------------------------------------------------------

/// The service names, in file order.
pub open spec fn service_keys(f: ComposeFile) -> Seq<Seq<char>> {
    key_views(f.services@)
}

/// The `depends_on` names of every service, in file order.
pub open spec fn dependency_lists(f: ComposeFile) -> Seq<Seq<Seq<char>>> {
    Seq::new(f.services@.len(), |i: int| f.services@[i].1.depends_on.names_view())
}

/// The entries of `s` that are among `names`, in order.
pub open spec fn present(s: Seq<Seq<char>>, names: Seq<Seq<char>>) -> Seq<Seq<char>>
    decreases s.len(),
{
    if s.len() == 0 {
        Seq::empty()
    } else if names.contains(s.last()) {
        present(s.drop_last(), names).push(s.last())
    } else {
        present(s.drop_last(), names)
    }
}

/// The dependencies of every service that name a service of the file: the
/// edges of the start order (an optional dependency that names no service
/// is ignored).
pub open spec fn present_dependencies(f: ComposeFile) -> Seq<Seq<Seq<char>>> {
    Seq::new(f.services@.len(), |i: int| present(dependency_lists(f)[i], service_keys(f)))
}

/// The first entry of `s` that names no service although `d` requires it.
pub open spec fn first_blocking(s: Seq<Seq<char>>, names: Seq<Seq<char>>, d: DependsOn) -> Option<Seq<char>>
    decreases s.len(),
{
    if s.len() == 0 {
        None
    } else {
        match first_blocking(s.drop_last(), names, d) {
            Some(x) => Some(x),
            None => if names.contains(s.last()) || !d.required_view(s.last()) {
                None
            } else {
                Some(s.last())
            },
        }
    }
}

/// The first required dependency that names no service, among the first
/// `n` services (services in file order, dependencies in declaration order).
pub open spec fn first_blocking_in(f: ComposeFile, n: int) -> Option<Seq<char>>
    decreases n,
{
    if n <= 0 {
        None
    } else {
        match first_blocking_in(f, n - 1) {
            Some(x) => Some(x),
            None => first_blocking(dependency_lists(f)[n - 1], service_keys(f), f.services@[n - 1].1.depends_on),
        }
    }
}

/// The first required dependency that names no service, if any.
pub open spec fn first_missing_dependency(f: ComposeFile) -> Option<Seq<char>> {
    first_blocking_in(f, f.services@.len() as int)
}

/// A start order: every service once, each after the services it depends on.
pub open spec fn is_start_order(f: ComposeFile, order: Seq<Seq<char>>) -> bool {
    valid_name_order(service_keys(f), present_dependencies(f), order)
}

/// Compute a topological start order for all services.
///
/// Returns service names in the order they should be started (dependencies
/// first).  A dependency declared `required: false` that names no service
/// is skipped; a required one gives [`ComposeError::ServiceNotFound`].  A
/// cycle gives [`ComposeError::CircularDependency`].
pub fn resolve_order(file: &ComposeFile) -> (r: Result<Vec<String>>)
    requires
        file.wf(),
    ensures
        match r {
            Ok(order) => first_missing_dependency(*file) is None && is_start_order(*file, order.deep_view()),
            Err(ComposeError::ServiceNotFound(d)) => first_missing_dependency(*file) == Some(d@),
            Err(ComposeError::CircularDependency(m)) => {
                &&& first_missing_dependency(*file) is None
                &&& m@ == "cycle detected in depends_on"@
                &&& forall|o: Seq<Seq<char>>| !is_start_order(*file, o)
            },
            Err(_) => false,
        },
{
    let ghost names = service_keys(*file);
    let ghost lists = dependency_lists(*file);
    let ghost edges = present_dependencies(*file);
    let n = file.services.len();
    let mut d: Vec<Vec<usize>> = Vec::new();
    let mut i: usize = 0;
    while i < n
        invariant
            n == file.services@.len(),
            names == service_keys(*file),
            lists == dependency_lists(*file),
            edges == present_dependencies(*file),
            i <= n,
            first_blocking_in(*file, i as int) is None,
            d@.len() == i,
            forall|a: int| 0 <= a < i ==> (#[trigger] d.deep_view()[a]).len() == edges[a].len(),
            forall|a: int, k: int| 0 <= a < i && 0 <= k < d.deep_view()[a].len() ==>
                #[trigger] d.deep_view()[a][k] < n && names[d.deep_view()[a][k] as int] == edges[a][k],
        decreases n - i,
    {
        let svc = &file.services[i].1;
        let deps = svc.depends_on.service_names();
        assert(deps.deep_view() == lists[i as int]);
        let mut di: Vec<usize> = Vec::new();
        let mut k: usize = 0;
        while k < deps.len()
            invariant
                n == file.services@.len(),
                names == service_keys(*file),
                lists == dependency_lists(*file),
                edges == present_dependencies(*file),
                i < n,
                *svc == file.services@[i as int].1,
                deps.deep_view() == lists[i as int],
                k <= deps@.len(),
                first_blocking(lists[i as int].take(k as int), names, svc.depends_on) is None,
                first_blocking_in(*file, i as int) is None,
                di@.len() == present(lists[i as int].take(k as int), names).len(),
                forall|m: int| 0 <= m < di@.len() ==> #[trigger] di@[m] < n
                    && names[di@[m] as int] == present(lists[i as int].take(k as int), names)[m],
            decreases deps@.len() - k,
        {
            let ghost t = lists[i as int].take(k + 1);
            assert(t.drop_last() =~= lists[i as int].take(k as int));
            assert(deps.deep_view()[k as int] == deps@[k as int]@);
            assert(t.last() == deps@[k as int]@);
            match kv_find(&file.services, deps[k].as_str()) {
                Some(j) => {
                    proof {
                        assert(names[j as int] == lists[i as int][k as int]);
                        assert(names.contains(t.last()));
                    }
                    di.push(j);
                },
                None => {
                    proof {
                        assert(!names.contains(t.last())) by {
                            if names.contains(t.last()) {
                                let j = choose|j: int| 0 <= j < names.len() && names[j] == t.last();
                                assert(file.services@[j].0@ == deps@[k as int]@);
                            }
                        }
                    }
                    if svc.depends_on.required_for(deps[k].as_str()) {
                        proof {
                            assert(first_blocking(t, names, svc.depends_on) == Some(deps@[k as int]@));
                            lemma_first_blocking_prefix(lists[i as int], names, svc.depends_on, k as int + 1);
                            assert(first_blocking_in(*file, i as int + 1) == Some(deps@[k as int]@));
                            lemma_first_blocking_in_prefix(*file, i as int + 1, n as int);
                        }
                        return Err(ComposeError::ServiceNotFound(deps[k].clone()));
                    }
                },
            }
            k = k + 1;
        }
        proof {
            assert(lists[i as int].take(deps@.len() as int) =~= lists[i as int]);
            assert(first_blocking_in(*file, i + 1) is None);
        }
        let ghost before = d.deep_view();
        d.push(di);
        proof {
            assert(di.deep_view() =~= di@);
            assert(d.deep_view() =~= before.push(di.deep_view()));
            assert(edges[i as int] == present(lists[i as int], names));
        }
        i = i + 1;
    }
    proof {
        assert(names_unique(names)) by {
            assert forall|a: int, b: int| 0 <= a < b < names.len() implies names[a] != names[b] by {
                assert(file.services@[a].0@ != file.services@[b].0@);
            }
        }
        assert(edges_indexed(names, edges, d.deep_view()));
        assert(names.len() <= usize::MAX);
    }
    match topo_order(&d) {
        Some(o) => {
            proof { lemma_index_order_names(names, edges, d.deep_view(), o@); }
            let mut out: Vec<String> = Vec::new();
            let mut p: usize = 0;
            while p < o.len()
                invariant
                    n == file.services@.len(),
                    names == service_keys(*file),
                    valid_index_order(d.deep_view(), o@),
                    d.deep_view().len() == n,
                    p <= o@.len(),
                    out.deep_view() =~= names_at(names, o@).take(p as int),
                decreases o@.len() - p,
            {
                assert(o@[p as int] < n);
                out.push(file.services[o[p]].0.clone());
                assert(names_at(names, o@).take(p + 1) =~= names_at(names, o@).take(p as int).push(names[o@[p as int] as int]));
                p = p + 1;
            }
            assert(names_at(names, o@).take(o@.len() as int) =~= names_at(names, o@));
            Ok(out)
        },
        None => {
            proof {
                assert forall|o: Seq<Seq<char>>| !is_start_order(*file, o) by {
                    if is_start_order(*file, o) {
                        lemma_name_order_index(names, edges, d.deep_view(), o);
                    }
                }
            }
            Err(ComposeError::CircularDependency("cycle detected in depends_on".to_string()))
        },
    }
}

proof fn lemma_first_blocking_prefix(s: Seq<Seq<char>>, names: Seq<Seq<char>>, d: DependsOn, k: int)
    requires
        0 <= k <= s.len(),
        first_blocking(s.take(k), names, d) is Some,
    ensures
        first_blocking(s, names, d) == first_blocking(s.take(k), names, d),
    decreases s.len() - k,
{
    if k < s.len() {
        assert(s.take(k + 1).drop_last() =~= s.take(k));
        lemma_first_blocking_prefix(s, names, d, k + 1);
    } else {
        assert(s.take(k) =~= s);
    }
}

proof fn lemma_first_blocking_in_prefix(f: ComposeFile, i: int, n: int)
    requires
        0 < i <= n,
        first_blocking_in(f, i) is Some,
    ensures
        first_blocking_in(f, n) == first_blocking_in(f, i),
    decreases n - i,
{
    if i < n {
        lemma_first_blocking_in_prefix(f, i + 1, n);
    }
}

// ---------------------------------------------------------------------------
// Merging included files
// ---------------------------------------------------------------------------

/// Merge `other` into `target`.  Services / volumes / networks / secrets /
/// configs from `other` are added; existing entries in `target` win on
/// conflict (the parent file overrides included content).
pub fn merge_compose_file(target: &mut ComposeFile, other: ComposeFile)
    requires
        old(target).wf(),
    ensures
        final(target).wf(),
        final(target).services@ == absorb(old(target).services@, other.services@),
        final(target).volumes@ == absorb(old(target).volumes@, other.volumes@),
        final(target).networks@ == absorb(old(target).networks@, other.networks@),
        final(target).secrets@ == absorb(old(target).secrets@, other.secrets@),
        final(target).configs@ == absorb(old(target).configs@, other.configs@),
        final(target).version == old(target).version,
        final(target).name == old(target).name,
        final(target).includes == old(target).includes,
{
    let ComposeFile { services, volumes, networks, secrets, configs, .. } = other;
    absorb_entries(&mut target.services, services);
    absorb_entries(&mut target.volumes, volumes);
    absorb_entries(&mut target.networks, networks);
    absorb_entries(&mut target.secrets, secrets);
    absorb_entries(&mut target.configs, configs);
}

/// After merging an included file, every entry name keeps the parent's
/// value when the parent has one, and otherwise takes the included file's.
pub proof fn parent_entries_win(target: ComposeFile, other: ComposeFile, name: Seq<char>)
    ensures
        kv_lookup(absorb(target.services@, other.services@), name) == match kv_lookup(target.services@, name) {
            Some(x) => Some(x),
            None => kv_lookup(other.services@, name),
        },
        kv_lookup(absorb(target.volumes@, other.volumes@), name) == match kv_lookup(target.volumes@, name) {
            Some(x) => Some(x),
            None => kv_lookup(other.volumes@, name),
        },
        kv_lookup(absorb(target.networks@, other.networks@), name) == match kv_lookup(target.networks@, name) {
            Some(x) => Some(x),
            None => kv_lookup(other.networks@, name),
        },
        kv_lookup(absorb(target.secrets@, other.secrets@), name) == match kv_lookup(target.secrets@, name) {
            Some(x) => Some(x),
            None => kv_lookup(other.secrets@, name),
        },
        kv_lookup(absorb(target.configs@, other.configs@), name) == match kv_lookup(target.configs@, name) {
            Some(x) => Some(x),
            None => kv_lookup(other.configs@, name),
        },
{
    lemma_absorb_lookup(target.services@, other.services@, name);
    lemma_absorb_lookup(target.volumes@, other.volumes@, name);
    lemma_absorb_lookup(target.networks@, other.networks@, name);
    lemma_absorb_lookup(target.secrets@, other.secrets@, name);
    lemma_absorb_lookup(target.configs@, other.configs@, name);
}

// ---------------------------------------------------------------------------
// Merging a service over its base
// ---------------------------------------------------------------------------

/// `o` when it is set, else `b`.
pub open spec fn opt_or<T>(o: Option<T>, b: Option<T>) -> Option<T> {
    if o is Some { o } else { b }
}

/// `over` unless it is empty, in which case `base`.
pub open spec fn vec_or<T>(base: Vec<T>, over: Vec<T>) -> Vec<T> {
    if over@.len() == 0 { base } else { over }
}

/// `over` unless it holds no entry, in which case `base`.
pub open spec fn list_or(base: StringOrList, over: StringOrList) -> StringOrList {
    if over.empty_view() { base } else { over }
}

/// `r` is `over` merged over `base`: every option the override sets wins,
/// and every list or map (the environment, labels, annotations, storage
/// options and ulimits included) is the override's unless that is empty,
/// in which case it is the base's.
pub open spec fn service_merged(base: Service, over: Service, r: Service) -> bool {
    &&& r.image == opt_or(over.image, base.image)
    &&& r.build == opt_or(over.build, base.build)
    &&& r.extends == opt_or(over.extends, base.extends)
    &&& r.command == opt_or(over.command, base.command)
    &&& r.entrypoint == opt_or(over.entrypoint, base.entrypoint)
    &&& r.ports == vec_or(base.ports, over.ports)
    &&& r.expose == vec_or(base.expose, over.expose)
    &&& r.environment == (if over.environment.empty_view() { base.environment } else { over.environment })
    &&& r.env_file == list_or(base.env_file, over.env_file)
    &&& r.volumes == vec_or(base.volumes, over.volumes)
    &&& r.tmpfs == list_or(base.tmpfs, over.tmpfs)
    &&& r.volumes_from == vec_or(base.volumes_from, over.volumes_from)
    &&& r.configs == vec_or(base.configs, over.configs)
    &&& r.secrets == vec_or(base.secrets, over.secrets)
    &&& r.networks == (if over.networks.empty_view() { base.networks } else { over.networks })
    &&& r.hostname == opt_or(over.hostname, base.hostname)
    &&& r.domainname == opt_or(over.domainname, base.domainname)
    &&& r.mac_address == opt_or(over.mac_address, base.mac_address)
    &&& r.links == vec_or(base.links, over.links)
    &&& r.extra_hosts == vec_or(base.extra_hosts, over.extra_hosts)
    &&& r.dns == list_or(base.dns, over.dns)
    &&& r.dns_search == list_or(base.dns_search, over.dns_search)
    &&& r.network_mode == opt_or(over.network_mode, base.network_mode)
    &&& r.depends_on == (if over.depends_on.empty_view() { base.depends_on } else { over.depends_on })
    &&& r.healthcheck == opt_or(over.healthcheck, base.healthcheck)
    &&& r.restart == opt_or(over.restart, base.restart)
    &&& r.stop_signal == opt_or(over.stop_signal, base.stop_signal)
    &&& r.stop_grace_period == opt_or(over.stop_grace_period, base.stop_grace_period)
    &&& r.profiles == vec_or(base.profiles, over.profiles)
    &&& r.labels == (if over.labels.empty_view() { base.labels } else { over.labels })
    &&& r.annotations == (if over.annotations.empty_view() { base.annotations } else { over.annotations })
    &&& r.container_name == opt_or(over.container_name, base.container_name)
    &&& r.user == opt_or(over.user, base.user)
    &&& r.working_dir == opt_or(over.working_dir, base.working_dir)
    &&& r.group_add == vec_or(base.group_add, over.group_add)
    &&& r.platform == opt_or(over.platform, base.platform)
    &&& r.cap_add == vec_or(base.cap_add, over.cap_add)
    &&& r.cap_drop == vec_or(base.cap_drop, over.cap_drop)
    &&& r.security_opt == vec_or(base.security_opt, over.security_opt)
    &&& r.read_only == opt_or(over.read_only, base.read_only)
    &&& r.privileged == opt_or(over.privileged, base.privileged)
    &&& r.init == opt_or(over.init, base.init)
    &&& r.tty == opt_or(over.tty, base.tty)
    &&& r.stdin_open == opt_or(over.stdin_open, base.stdin_open)
    &&& r.runtime == opt_or(over.runtime, base.runtime)
    &&& r.shm_size == opt_or(over.shm_size, base.shm_size)
    &&& r.userns_mode == opt_or(over.userns_mode, base.userns_mode)
    &&& r.pid == opt_or(over.pid, base.pid)
    &&& r.ipc == opt_or(over.ipc, base.ipc)
    &&& r.cgroup_parent == opt_or(over.cgroup_parent, base.cgroup_parent)
    &&& r.cgroup == opt_or(over.cgroup, base.cgroup)
    &&& r.devices == vec_or(base.devices, over.devices)
    &&& r.storage_opt == vec_or(base.storage_opt, over.storage_opt)
    &&& r.scale == opt_or(over.scale, base.scale)
    &&& r.cpu_shares == opt_or(over.cpu_shares, base.cpu_shares)
    &&& r.cpu_quota == opt_or(over.cpu_quota, base.cpu_quota)
    &&& r.cpu_period == opt_or(over.cpu_period, base.cpu_period)
    &&& r.cpuset == opt_or(over.cpuset, base.cpuset)
    &&& r.mem_limit == opt_or(over.mem_limit, base.mem_limit)
    &&& r.memswap_limit == opt_or(over.memswap_limit, base.memswap_limit)
    &&& r.mem_reservation == opt_or(over.mem_reservation, base.mem_reservation)
    &&& r.oom_kill_disable == opt_or(over.oom_kill_disable, base.oom_kill_disable)
    &&& r.oom_score_adj == opt_or(over.oom_score_adj, base.oom_score_adj)
    &&& r.logging == opt_or(over.logging, base.logging)
    &&& r.sysctls == (if over.sysctls.empty_view() { base.sysctls } else { over.sysctls })
    &&& r.ulimits == vec_or(base.ulimits, over.ulimits)
    &&& r.deploy == opt_or(over.deploy, base.deploy)
}

/// A service merged over its base takes every option the override sets
/// (its command included) and the base's only where the override leaves it
/// unset; every list or map is the override's when that is not empty and
/// the base's when it is.
pub proof fn override_wins(base: Service, over: Service, r: Service)
    requires
        service_merged(base, over, r),
    ensures
        over.image is Some ==> r.image == over.image,
        over.image is None ==> r.image == base.image,
        over.build is Some ==> r.build == over.build,
        over.build is None ==> r.build == base.build,
        over.extends is Some ==> r.extends == over.extends,
        over.extends is None ==> r.extends == base.extends,
        over.command is Some ==> r.command == over.command,
        over.command is None ==> r.command == base.command,
        over.entrypoint is Some ==> r.entrypoint == over.entrypoint,
        over.entrypoint is None ==> r.entrypoint == base.entrypoint,
        over.hostname is Some ==> r.hostname == over.hostname,
        over.hostname is None ==> r.hostname == base.hostname,
        over.domainname is Some ==> r.domainname == over.domainname,
        over.domainname is None ==> r.domainname == base.domainname,
        over.mac_address is Some ==> r.mac_address == over.mac_address,
        over.mac_address is None ==> r.mac_address == base.mac_address,
        over.network_mode is Some ==> r.network_mode == over.network_mode,
        over.network_mode is None ==> r.network_mode == base.network_mode,
        over.healthcheck is Some ==> r.healthcheck == over.healthcheck,
        over.healthcheck is None ==> r.healthcheck == base.healthcheck,
        over.restart is Some ==> r.restart == over.restart,
        over.restart is None ==> r.restart == base.restart,
        over.stop_signal is Some ==> r.stop_signal == over.stop_signal,
        over.stop_signal is None ==> r.stop_signal == base.stop_signal,
        over.stop_grace_period is Some ==> r.stop_grace_period == over.stop_grace_period,
        over.stop_grace_period is None ==> r.stop_grace_period == base.stop_grace_period,
        over.container_name is Some ==> r.container_name == over.container_name,
        over.container_name is None ==> r.container_name == base.container_name,
        over.user is Some ==> r.user == over.user,
        over.user is None ==> r.user == base.user,
        over.working_dir is Some ==> r.working_dir == over.working_dir,
        over.working_dir is None ==> r.working_dir == base.working_dir,
        over.platform is Some ==> r.platform == over.platform,
        over.platform is None ==> r.platform == base.platform,
        over.read_only is Some ==> r.read_only == over.read_only,
        over.read_only is None ==> r.read_only == base.read_only,
        over.privileged is Some ==> r.privileged == over.privileged,
        over.privileged is None ==> r.privileged == base.privileged,
        over.init is Some ==> r.init == over.init,
        over.init is None ==> r.init == base.init,
        over.tty is Some ==> r.tty == over.tty,
        over.tty is None ==> r.tty == base.tty,
        over.stdin_open is Some ==> r.stdin_open == over.stdin_open,
        over.stdin_open is None ==> r.stdin_open == base.stdin_open,
        over.runtime is Some ==> r.runtime == over.runtime,
        over.runtime is None ==> r.runtime == base.runtime,
        over.shm_size is Some ==> r.shm_size == over.shm_size,
        over.shm_size is None ==> r.shm_size == base.shm_size,
        over.userns_mode is Some ==> r.userns_mode == over.userns_mode,
        over.userns_mode is None ==> r.userns_mode == base.userns_mode,
        over.pid is Some ==> r.pid == over.pid,
        over.pid is None ==> r.pid == base.pid,
        over.ipc is Some ==> r.ipc == over.ipc,
        over.ipc is None ==> r.ipc == base.ipc,
        over.cgroup_parent is Some ==> r.cgroup_parent == over.cgroup_parent,
        over.cgroup_parent is None ==> r.cgroup_parent == base.cgroup_parent,
        over.cgroup is Some ==> r.cgroup == over.cgroup,
        over.cgroup is None ==> r.cgroup == base.cgroup,
        over.scale is Some ==> r.scale == over.scale,
        over.scale is None ==> r.scale == base.scale,
        over.cpu_shares is Some ==> r.cpu_shares == over.cpu_shares,
        over.cpu_shares is None ==> r.cpu_shares == base.cpu_shares,
        over.cpu_quota is Some ==> r.cpu_quota == over.cpu_quota,
        over.cpu_quota is None ==> r.cpu_quota == base.cpu_quota,
        over.cpu_period is Some ==> r.cpu_period == over.cpu_period,
        over.cpu_period is None ==> r.cpu_period == base.cpu_period,
        over.cpuset is Some ==> r.cpuset == over.cpuset,
        over.cpuset is None ==> r.cpuset == base.cpuset,
        over.mem_limit is Some ==> r.mem_limit == over.mem_limit,
        over.mem_limit is None ==> r.mem_limit == base.mem_limit,
        over.memswap_limit is Some ==> r.memswap_limit == over.memswap_limit,
        over.memswap_limit is None ==> r.memswap_limit == base.memswap_limit,
        over.mem_reservation is Some ==> r.mem_reservation == over.mem_reservation,
        over.mem_reservation is None ==> r.mem_reservation == base.mem_reservation,
        over.oom_kill_disable is Some ==> r.oom_kill_disable == over.oom_kill_disable,
        over.oom_kill_disable is None ==> r.oom_kill_disable == base.oom_kill_disable,
        over.oom_score_adj is Some ==> r.oom_score_adj == over.oom_score_adj,
        over.oom_score_adj is None ==> r.oom_score_adj == base.oom_score_adj,
        over.logging is Some ==> r.logging == over.logging,
        over.logging is None ==> r.logging == base.logging,
        over.deploy is Some ==> r.deploy == over.deploy,
        over.deploy is None ==> r.deploy == base.deploy,
        over.ports@.len() > 0 ==> r.ports == over.ports,
        over.ports@.len() == 0 ==> r.ports == base.ports,
        over.expose@.len() > 0 ==> r.expose == over.expose,
        over.expose@.len() == 0 ==> r.expose == base.expose,
        over.volumes@.len() > 0 ==> r.volumes == over.volumes,
        over.volumes@.len() == 0 ==> r.volumes == base.volumes,
        over.volumes_from@.len() > 0 ==> r.volumes_from == over.volumes_from,
        over.volumes_from@.len() == 0 ==> r.volumes_from == base.volumes_from,
        over.configs@.len() > 0 ==> r.configs == over.configs,
        over.configs@.len() == 0 ==> r.configs == base.configs,
        over.secrets@.len() > 0 ==> r.secrets == over.secrets,
        over.secrets@.len() == 0 ==> r.secrets == base.secrets,
        over.links@.len() > 0 ==> r.links == over.links,
        over.links@.len() == 0 ==> r.links == base.links,
        over.extra_hosts@.len() > 0 ==> r.extra_hosts == over.extra_hosts,
        over.extra_hosts@.len() == 0 ==> r.extra_hosts == base.extra_hosts,
        over.profiles@.len() > 0 ==> r.profiles == over.profiles,
        over.profiles@.len() == 0 ==> r.profiles == base.profiles,
        over.group_add@.len() > 0 ==> r.group_add == over.group_add,
        over.group_add@.len() == 0 ==> r.group_add == base.group_add,
        over.cap_add@.len() > 0 ==> r.cap_add == over.cap_add,
        over.cap_add@.len() == 0 ==> r.cap_add == base.cap_add,
        over.cap_drop@.len() > 0 ==> r.cap_drop == over.cap_drop,
        over.cap_drop@.len() == 0 ==> r.cap_drop == base.cap_drop,
        over.security_opt@.len() > 0 ==> r.security_opt == over.security_opt,
        over.security_opt@.len() == 0 ==> r.security_opt == base.security_opt,
        over.devices@.len() > 0 ==> r.devices == over.devices,
        over.devices@.len() == 0 ==> r.devices == base.devices,
        over.storage_opt@.len() > 0 ==> r.storage_opt == over.storage_opt,
        over.storage_opt@.len() == 0 ==> r.storage_opt == base.storage_opt,
        over.ulimits@.len() > 0 ==> r.ulimits == over.ulimits,
        over.ulimits@.len() == 0 ==> r.ulimits == base.ulimits,
        !over.env_file.empty_view() ==> r.env_file == over.env_file,
        over.env_file.empty_view() ==> r.env_file == base.env_file,
        !over.tmpfs.empty_view() ==> r.tmpfs == over.tmpfs,
        over.tmpfs.empty_view() ==> r.tmpfs == base.tmpfs,
        !over.dns.empty_view() ==> r.dns == over.dns,
        over.dns.empty_view() ==> r.dns == base.dns,
        !over.dns_search.empty_view() ==> r.dns_search == over.dns_search,
        over.dns_search.empty_view() ==> r.dns_search == base.dns_search,
        !over.environment.empty_view() ==> r.environment == over.environment,
        over.environment.empty_view() ==> r.environment == base.environment,
        !over.networks.empty_view() ==> r.networks == over.networks,
        over.networks.empty_view() ==> r.networks == base.networks,
        !over.depends_on.empty_view() ==> r.depends_on == over.depends_on,
        over.depends_on.empty_view() ==> r.depends_on == base.depends_on,
        !over.labels.empty_view() ==> r.labels == over.labels,
        over.labels.empty_view() ==> r.labels == base.labels,
        !over.annotations.empty_view() ==> r.annotations == over.annotations,
        over.annotations.empty_view() ==> r.annotations == base.annotations,
        !over.sysctls.empty_view() ==> r.sysctls == over.sysctls,
        over.sysctls.empty_view() ==> r.sysctls == base.sysctls,
{
}

fn merge_opt<T>(o: Option<T>, b: Option<T>) -> (r: Option<T>)
    ensures
        r == opt_or(o, b),
{
    match o {
        Some(x) => Some(x),
        None => b,
    }
}

fn merge_vec<T>(base: Vec<T>, over: Vec<T>) -> (r: Vec<T>)
    ensures
        r == vec_or(base, over),
{
    if over.len() == 0 { base } else { over }
}

fn merge_list(base: StringOrList, over: StringOrList) -> (r: StringOrList)
    ensures
        r == list_or(base, over),
{
    if over.is_empty() { base } else { over }
}

/// Merge `over` over `base`.  `over` wins for any option it sets; every
/// list or map is replaced outright when the override's is non-empty.
pub fn merge_service(base: Service, over: Service) -> (r: Service)
    ensures
        service_merged(base, over, r),
{
    let b = base;
    let o = over;
    Service {
        image: merge_opt(o.image, b.image),
        build: merge_opt(o.build, b.build),
        extends: merge_opt(o.extends, b.extends),
        command: merge_opt(o.command, b.command),
        entrypoint: merge_opt(o.entrypoint, b.entrypoint),
        ports: merge_vec(b.ports, o.ports),
        expose: merge_vec(b.expose, o.expose),
        environment: if o.environment.is_empty() { b.environment } else { o.environment },
        env_file: merge_list(b.env_file, o.env_file),
        volumes: merge_vec(b.volumes, o.volumes),
        tmpfs: merge_list(b.tmpfs, o.tmpfs),
        volumes_from: merge_vec(b.volumes_from, o.volumes_from),
        configs: merge_vec(b.configs, o.configs),
        secrets: merge_vec(b.secrets, o.secrets),
        networks: if o.networks.is_empty() { b.networks } else { o.networks },
        hostname: merge_opt(o.hostname, b.hostname),
        domainname: merge_opt(o.domainname, b.domainname),
        mac_address: merge_opt(o.mac_address, b.mac_address),
        links: merge_vec(b.links, o.links),
        extra_hosts: merge_vec(b.extra_hosts, o.extra_hosts),
        dns: merge_list(b.dns, o.dns),
        dns_search: merge_list(b.dns_search, o.dns_search),
        network_mode: merge_opt(o.network_mode, b.network_mode),
        depends_on: if o.depends_on.is_empty() { b.depends_on } else { o.depends_on },
        healthcheck: merge_opt(o.healthcheck, b.healthcheck),
        restart: merge_opt(o.restart, b.restart),
        stop_signal: merge_opt(o.stop_signal, b.stop_signal),
        stop_grace_period: merge_opt(o.stop_grace_period, b.stop_grace_period),
        profiles: merge_vec(b.profiles, o.profiles),
        labels: if o.labels.is_empty() { b.labels } else { o.labels },
        annotations: if o.annotations.is_empty() { b.annotations } else { o.annotations },
        container_name: merge_opt(o.container_name, b.container_name),
        user: merge_opt(o.user, b.user),
        working_dir: merge_opt(o.working_dir, b.working_dir),
        group_add: merge_vec(b.group_add, o.group_add),
        platform: merge_opt(o.platform, b.platform),
        cap_add: merge_vec(b.cap_add, o.cap_add),
        cap_drop: merge_vec(b.cap_drop, o.cap_drop),
        security_opt: merge_vec(b.security_opt, o.security_opt),
        read_only: merge_opt(o.read_only, b.read_only),
        privileged: merge_opt(o.privileged, b.privileged),
        init: merge_opt(o.init, b.init),
        tty: merge_opt(o.tty, b.tty),
        stdin_open: merge_opt(o.stdin_open, b.stdin_open),
        runtime: merge_opt(o.runtime, b.runtime),
        shm_size: merge_opt(o.shm_size, b.shm_size),
        userns_mode: merge_opt(o.userns_mode, b.userns_mode),
        pid: merge_opt(o.pid, b.pid),
        ipc: merge_opt(o.ipc, b.ipc),
        cgroup_parent: merge_opt(o.cgroup_parent, b.cgroup_parent),
        cgroup: merge_opt(o.cgroup, b.cgroup),
        devices: merge_vec(b.devices, o.devices),
        storage_opt: merge_vec(b.storage_opt, o.storage_opt),
        scale: merge_opt(o.scale, b.scale),
        cpu_shares: merge_opt(o.cpu_shares, b.cpu_shares),
        cpu_quota: merge_opt(o.cpu_quota, b.cpu_quota),
        cpu_period: merge_opt(o.cpu_period, b.cpu_period),
        cpuset: merge_opt(o.cpuset, b.cpuset),
        mem_limit: merge_opt(o.mem_limit, b.mem_limit),
        memswap_limit: merge_opt(o.memswap_limit, b.memswap_limit),
        mem_reservation: merge_opt(o.mem_reservation, b.mem_reservation),
        oom_kill_disable: merge_opt(o.oom_kill_disable, b.oom_kill_disable),
        oom_score_adj: merge_opt(o.oom_score_adj, b.oom_score_adj),
        logging: merge_opt(o.logging, b.logging),
        sysctls: if o.sysctls.is_empty() { b.sysctls } else { o.sysctls },
        ulimits: merge_vec(b.ulimits, o.ulimits),
        deploy: merge_opt(o.deploy, b.deploy),
    }
}

// ---------------------------------------------------------------------------
// `extends:` within one file
// ---------------------------------------------------------------------------

pub const CIRCULAR_EXTENDS: &'static str = "circular extends at ";
pub const SERVICE_QUOTE: &'static str = "service '";
pub const USES_EXTENDS_FILE: &'static str = "' uses 'extends.file' but parser was given a string, not a path";
pub const EXTENDS_ITSELF: &'static str = "' extends itself";
pub const EXTENDS_UNKNOWN: &'static str = "' extends unknown service '";
pub const QUOTE: &'static str = "'";

pub open spec fn circular_message(name: Seq<char>) -> Seq<char> {
    CIRCULAR_EXTENDS@ + name
}

pub open spec fn file_message(name: Seq<char>) -> Seq<char> {
    SERVICE_QUOTE@ + name + USES_EXTENDS_FILE@
}

pub open spec fn itself_message(name: Seq<char>) -> Seq<char> {
    SERVICE_QUOTE@ + name + EXTENDS_ITSELF@
}

pub open spec fn unknown_message(name: Seq<char>, base: Seq<char>) -> Seq<char> {
    SERVICE_QUOTE@ + name + EXTENDS_UNKNOWN@ + base + QUOTE@
}

/// Following the `extends:` chain from service `name`, having passed through
/// the services `visited`, within one file (no `file:` references): the
/// message of the first problem met, or `None` when the chain ends at a
/// service that extends nothing.  `fuel` bounds the chain's length; the
/// number of services is always enough.
pub open spec fn extends_error(s: Seq<(String, Service)>, name: Seq<char>, visited: Set<Seq<char>>, fuel: nat) -> Option<Seq<char>>
    decreases fuel,
{
    if visited.contains(name) {
        Some(circular_message(name))
    } else {
        match kv_lookup(s, name) {
            None => None,
            Some(svc) => match svc.extends {
                None => None,
                Some(e) => if e.file_view() is Some {
                    Some(file_message(name))
                } else if e.service_view() == name {
                    Some(itself_message(name))
                } else if kv_lookup(s, e.service_view()) is None {
                    Some(unknown_message(name, e.service_view()))
                } else if fuel == 0 {
                    None
                } else {
                    extends_error(s, e.service_view(), visited.insert(name), (fuel - 1) as nat)
                },
            },
        }
    }
}

/// The chain problem of the first of the first `n` services that has one.
pub open spec fn first_extends_error(s: Seq<(String, Service)>, n: int) -> Option<Seq<char>>
    decreases n,
{
    if n <= 0 {
        None
    } else {
        match first_extends_error(s, n - 1) {
            Some(x) => Some(x),
            None => extends_error(s, s[n - 1].0@, Set::empty(), s.len()),
        }
    }
}

/// `m` with no `extends:` left.
pub open spec fn without_extends(m: Service) -> Service {
    Service { extends: None, ..m }
}

/// `r` is `own` merged over a faithful copy of the resolved base `base_final`,
/// its `extends:` cleared.
pub open spec fn resolved_from(base_final: Service, own: Service, r: Service) -> bool {
    exists|b: Service, m: Service| b.same(&base_final) && service_merged(b, own, m) && r == without_extends(m)
}

/// Service `i` of `fin` is service `i` of `orig` with its `extends:` applied:
/// unchanged when it extends nothing, and otherwise merged over its base's
/// final form.
pub open spec fn extends_applied(orig: Seq<(String, Service)>, fin: Seq<(String, Service)>, i: int) -> bool {
    &&& fin[i].0 == orig[i].0
    &&& match orig[i].1.extends {
        None => fin[i].1 == orig[i].1,
        Some(e) => {
            &&& fin[i].1.extends is None
            &&& exists|j: int| 0 <= j < fin.len() && (#[trigger] fin[j]).0@ == e.service_view()
                && fin[j].1.extends is None && resolved_from(fin[j].1, orig[i].1, fin[i].1)
        },
    }
}

/// Service `i` of `cur` is either untouched or already resolved, its chain
/// then being sound.
spec fn settled(orig: Seq<(String, Service)>, cur: Seq<(String, Service)>, i: int) -> bool {
    if cur[i].1.extends is Some {
        cur[i] == orig[i]
    } else {
        &&& extends_applied(orig, cur, i)
        &&& orig[i].1.extends is Some ==> extends_error(orig, orig[i].0@, Set::empty(), orig.len()) is None
    }
}

spec fn progress(orig: Seq<(String, Service)>, cur: Seq<(String, Service)>) -> bool {
    &&& unique_key_views(orig)
    &&& cur.len() == orig.len()
    &&& forall|i: int| 0 <= i < cur.len() ==> #[trigger] settled(orig, cur, i)
}

/// The names of the services at positions `idx`.
spec fn names_at_positions(orig: Seq<(String, Service)>, idx: Seq<usize>) -> Set<Seq<char>> {
    Set::new(|x: Seq<char>| exists|k: int| 0 <= k < idx.len() && orig[idx[k] as int].0@ == x)
}

proof fn lemma_keys_same(orig: Seq<(String, Service)>, cur: Seq<(String, Service)>)
    requires
        progress(orig, cur),
    ensures
        unique_key_views(cur),
        forall|i: int| 0 <= i < cur.len() ==> (#[trigger] cur[i]).0 == orig[i].0,
{
    assert forall|i: int| 0 <= i < cur.len() implies (#[trigger] cur[i]).0 == orig[i].0 by {
        assert(settled(orig, cur, i));
    }
    assert forall|a: int, b: int| 0 <= a < b < cur.len() implies (#[trigger] cur[a]).0@ != (#[trigger] cur[b]).0@ by {
        assert(cur[a].0 == orig[a].0 && cur[b].0 == orig[b].0);
    }
}

proof fn lemma_lookup_index(s: Seq<(String, Service)>, i: int)
    requires
        unique_key_views(s),
        0 <= i < s.len(),
    ensures
        kv_lookup(s, s[i].0@) == Some(s[i].1),
{
    assert forall|j: int| 0 <= j < i implies (#[trigger] s[j]).0@ != s[i].0@ by {}
    lemma_kv_lookup_at(s, s[i].0@, i);
}

proof fn lemma_fuel_monotone(s: Seq<(String, Service)>, name: Seq<char>, v: Set<Seq<char>>, f: nat, g: nat)
    requires
        g <= f,
        extends_error(s, name, v, f) is None,
    ensures
        extends_error(s, name, v, g) is None,
    decreases g,
{
    if !v.contains(name) && g > 0 {
        match kv_lookup(s, name) {
            Some(svc) => match svc.extends {
                Some(e) => {
                    if e.file_view() is None && e.service_view() != name && kv_lookup(s, e.service_view()) is Some {
                        lemma_fuel_monotone(s, e.service_view(), v.insert(name), (f - 1) as nat, (g - 1) as nat);
                    }
                },
                None => {},
            },
            None => {},
        }
    }
}

/// A resolved service's chain runs through resolved services only, so
/// adding unresolved services to the visited set changes nothing.
proof fn lemma_resolved_chain(orig: Seq<(String, Service)>, cur: Seq<(String, Service)>, i: int, w: Set<Seq<char>>, v: Set<Seq<char>>, fuel: nat)
    requires
        progress(orig, cur),
        0 <= i < cur.len(),
        cur[i].1.extends is None,
        extends_error(orig, orig[i].0@, w, fuel) is None,
        forall|k: int| 0 <= k < cur.len() && v.contains(#[trigger] cur[k].0@) ==> cur[k].1.extends is Some,
    ensures
        extends_error(orig, orig[i].0@, w.union(v), fuel) is None,
    decreases fuel,
{
    lemma_keys_same(orig, cur);
    assert(settled(orig, cur, i));
    let name = orig[i].0@;
    assert(!v.contains(name));
    lemma_lookup_index(orig, i);
    match orig[i].1.extends {
        None => {},
        Some(e) => {
            if fuel > 0 {
                let base = e.service_view();
                let j = choose|j: int| 0 <= j < cur.len() && (#[trigger] cur[j]).0@ == base
                    && cur[j].1.extends is None && resolved_from(cur[j].1, orig[i].1, cur[i].1);
                assert(cur[j].0@ == orig[j].0@);
                lemma_resolved_chain(orig, cur, j, w.insert(name), v, (fuel - 1) as nat);
                assert(w.insert(name).union(v) =~= w.union(v).insert(name));
            }
        },
    }
}

/// Distinct positions below `n`, `n` of them: every position is among them.
proof fn lemma_all_positions(idx: Seq<usize>, n: nat, i: usize)
    requires
        idx.no_duplicates(),
        forall|k: int| 0 <= k < idx.len() ==> (#[trigger] idx[k]) < n,
        idx.len() >= n,
        i < n,
    ensures
        idx.contains(i),
{
    if !idx.contains(i) {
        let s2 = Seq::new(idx.len(), |k: int| idx[k] as int);
        assert(s2.no_duplicates()) by {
            assert forall|a: int, b: int| 0 <= a < s2.len() && 0 <= b < s2.len() && a != b implies s2[a] != s2[b] by {
                assert(idx[a] != idx[b]);
            }
        }
        let range = vstd::set_lib::set_int_range(0, n as int).remove(i as int);
        vstd::set_lib::lemma_int_range(0, n as int);
        assert(range.finite());
        assert(range.len() == n - 1);
        assert(s2.to_set().subset_of(range)) by {
            assert forall|x: int| s2.to_set().contains(x) implies range.contains(x) by {
                let k = choose|k: int| 0 <= k < s2.len() && s2[k] == x;
                assert(idx[k] < n);
                assert(idx[k] != i) by {
                    if idx[k] == i {
                        assert(idx.contains(i));
                    }
                }
            }
        }
        s2.unique_seq_to_set();
        vstd::set_lib::lemma_len_subset(s2.to_set(), range);
        assert(false);
    }
}

pub(crate) fn circular_text(name: &str) -> (r: String)
    ensures
        r@ == circular_message(name@),
{
    let mut m = CIRCULAR_EXTENDS.to_string();
    m.append(name);
    m
}

fn file_text(name: &str) -> (r: String)
    ensures
        r@ == file_message(name@),
{
    let mut m = SERVICE_QUOTE.to_string();
    m.append(name);
    m.append(USES_EXTENDS_FILE);
    m
}

pub(crate) fn itself_text(name: &str) -> (r: String)
    ensures
        r@ == itself_message(name@),
{
    let mut m = SERVICE_QUOTE.to_string();
    m.append(name);
    m.append(EXTENDS_ITSELF);
    m
}

pub(crate) fn unknown_text(name: &str, base: &str) -> (r: String)
    ensures
        r@ == unknown_message(name@, base@),
{
    let mut m = SERVICE_QUOTE.to_string();
    m.append(name);
    m.append(EXTENDS_UNKNOWN);
    m.append(base);
    m.append(QUOTE);
    m
}

fn contains_position(v: &Vec<usize>, i: usize) -> (r: bool)
    ensures
        r == v@.contains(i),
{
    let mut k: usize = 0;
    while k < v.len()
        invariant
            k <= v@.len(),
            forall|a: int| 0 <= a < k ==> v@[a] != i,
        decreases v@.len() - k,
    {
        if v[k] == i {
            assert(v@[k as int] == i);
            return true;
        }
        k = k + 1;
    }
    false
}

/// Resolves service `i` (and, first, the services its chain passes
/// through), `visited` holding the chain walked so far.
#[verifier::rlimit(50)]
#[verifier::spinoff_prover]
fn resolve_one(
    services: &mut Vec<(String, Service)>,
    i: usize,
    visited: &mut Vec<usize>,
    Ghost(orig): Ghost<Seq<(String, Service)>>,
    Ghost(fuel): Ghost<nat>,
) -> (r: Result<()>)
    requires
        progress(orig, old(services)@),
        i < orig.len(),
        old(visited)@.no_duplicates(),
        forall|k: int| 0 <= k < old(visited)@.len() ==> (#[trigger] old(visited)@[k]) < orig.len()
            && old(services)@[old(visited)@[k] as int].1.extends is Some,
        old(visited)@.len() + fuel == orig.len(),
    ensures
        progress(orig, final(services)@),
        match r {
            Ok(()) => {
                &&& final(services)@[i as int].1.extends is None
                &&& extends_error(orig, orig[i as int].0@, names_at_positions(orig, old(visited)@), fuel) is None
                &&& forall|k: int| 0 <= k < orig.len() && old(services)@[k].1.extends is None
                    ==> #[trigger] final(services)@[k] == old(services)@[k]
                &&& forall|k: int| 0 <= k < old(visited)@.len()
                    ==> final(services)@[#[trigger] old(visited)@[k] as int] == old(services)@[old(visited)@[k] as int]
            },
            Err(ComposeError::Extends(m)) => {
                &&& final(services)@ == old(services)@
                &&& extends_error(orig, orig[i as int].0@, names_at_positions(orig, old(visited)@), fuel) == Some(m@)
            },
            Err(_) => false,
        },
    decreases fuel,
{
    let ghost cur = services@;
    let ghost v0 = visited@;
    let ghost vset = names_at_positions(orig, v0);
    let ghost name = orig[i as int].0@;
    proof {
        lemma_keys_same(orig, cur);
        lemma_lookup_index(orig, i as int);
        assert(settled(orig, cur, i as int));
        assert(cur[i as int].0@ == name);
    }
    if contains_position(visited, i) {
        proof {
            let k = choose|k: int| 0 <= k < v0.len() && v0[k] == i;
            assert(orig[v0[k] as int].0@ == name);
            assert(vset.contains(name));
        }
        let m = circular_text(services[i].0.as_str());
        return Err(ComposeError::Extends(m));
    }
    proof {
        assert(!vset.contains(name)) by {
            if vset.contains(name) {
                let k = choose|k: int| 0 <= k < v0.len() && orig[v0[k] as int].0@ == name;
                assert(v0[k] < orig.len());
                if (v0[k] as int) < (i as int) {
                    assert(orig[v0[k] as int].0@ != orig[i as int].0@);
                } else if (v0[k] as int) > (i as int) {
                    assert(orig[i as int].0@ != orig[v0[k] as int].0@);
                }
                assert(v0.contains(i));
            }
        }
        // every name of `vset` belongs to an unresolved service
        assert forall|k: int| 0 <= k < cur.len() && vset.contains(#[trigger] cur[k].0@) implies cur[k].1.extends is Some by {
            let a = choose|a: int| 0 <= a < v0.len() && orig[v0[a] as int].0@ == cur[k].0@;
            assert(cur[k].0@ == orig[k].0@);
            assert(v0[a] < orig.len());
            if (v0[a] as int) < k {
                assert(orig[v0[a] as int].0@ != orig[k].0@);
            } else if (v0[a] as int) > k {
                assert(orig[k].0@ != orig[v0[a] as int].0@);
            }
        }
    }
    visited.push(i);
    let (has_file, base) = match &services[i].1.extends {
        None => {
            proof {
                if orig[i as int].1.extends is Some {
                    lemma_resolved_chain(orig, cur, i as int, Set::empty(), vset, orig.len());
                    assert(Set::<Seq<char>>::empty().union(vset) =~= vset);
                    lemma_fuel_monotone(orig, name, vset, orig.len(), fuel);
                }
            }
            return Ok(());
        },
        Some(e) => (e.file().is_some(), e.service().to_string()),
    };
    let ghost e = orig[i as int].1.extends->0;
    proof {
        assert(cur[i as int] == orig[i as int]);
        assert(base@ == e.service_view());
    }
    if has_file {
        proof { assert(e.file_view() is Some); }
        let m = file_text(services[i].0.as_str());
        return Err(ComposeError::Extends(m));
    }
    if str_eq(base.as_str(), services[i].0.as_str()) {
        let m = itself_text(services[i].0.as_str());
        return Err(ComposeError::Extends(m));
    }
    let j = match kv_find(services, base.as_str()) {
        None => {
            proof {
                assert forall|a: int| 0 <= a < orig.len() implies (#[trigger] orig[a]).0@ != base@ by {
                    assert(cur[a].0@ == orig[a].0@);
                }
                lemma_kv_lookup_none(orig, base@);
            }
            let m = unknown_text(services[i].0.as_str(), base.as_str());
            return Err(ComposeError::Extends(m));
        },
        Some(j) => j,
    };
    proof {
        assert(cur[j as int].0@ == orig[j as int].0@);
        lemma_lookup_index(orig, j as int);
        assert(kv_lookup(orig, base@) is Some);
        if fuel == 0 {
            lemma_all_positions(v0, orig.len(), i);
        }
        assert(fuel > 0);
        assert(extends_error(orig, name, vset, fuel)
            == extends_error(orig, base@, vset.insert(name), (fuel - 1) as nat));
        assert(names_at_positions(orig, visited@) =~= vset.insert(name)) by {
            assert(visited@ == v0.push(i));
            assert forall|x: Seq<char>| vset.insert(name).contains(x) implies names_at_positions(orig, visited@).contains(x) by {
                if x == name {
                    assert(visited@[v0.len() as int] == i);
                } else {
                    let k = choose|k: int| 0 <= k < v0.len() && orig[v0[k] as int].0@ == x;
                    assert(visited@[k] == v0[k]);
                }
            }
            assert forall|x: Seq<char>| names_at_positions(orig, visited@).contains(x) implies vset.insert(name).contains(x) by {
                let k = choose|k: int| 0 <= k < visited@.len() && orig[visited@[k] as int].0@ == x;
                if k < v0.len() {
                    assert(visited@[k] == v0[k]);
                }
            }
        }
        assert(visited@.no_duplicates()) by {
            assert forall|a: int, b: int| 0 <= a < visited@.len() && 0 <= b < visited@.len() && a != b implies visited@[a] != visited@[b] by {
                if a < v0.len() && b < v0.len() {
                    assert(v0[a] != v0[b]);
                } else if a < v0.len() {
                    assert(v0[a] != i) by {
                        if v0[a] == i { assert(v0.contains(i)); }
                    }
                } else if b < v0.len() {
                    assert(v0[b] != i) by {
                        if v0[b] == i { assert(v0.contains(i)); }
                    }
                }
            }
        }
    }
    let ghost v1 = visited@;
    match resolve_one(services, j, visited, Ghost(orig), Ghost((fuel - 1) as nat)) {
        Err(e) => {
            return Err(e);
        },
        Ok(()) => {},
    }
    let ghost cur2 = services@;
    proof {
        lemma_keys_same(orig, cur2);
        assert(v1 == v0.push(i));
        assert(cur2[i as int] == cur[i as int]) by {
            assert(v1[v0.len() as int] == i);
        }
        assert(j != i);
    }
    let b = services[j].1.exact_copy();
    let (k, own) = services.remove(i);
    let mut m = merge_service(b, own);
    let ghost m0 = m;
    m.extends = None;
    services.insert(i, (k, m));
    proof {
        let fin = services@;
        assert(fin =~= cur2.update(i as int, (orig[i as int].0, without_extends(m0))));
        assert(own == orig[i as int].1);
        assert(fin[j as int] == cur2[j as int]);
        // the chain from service `i` is sound
        let single = Set::<Seq<char>>::empty().insert(name);
        assert(settled(orig, cur2, j as int));
        if orig[j as int].1.extends is None {
            assert(extends_error(orig, base@, Set::empty(), orig.len()) is None);
        }
        assert forall|a: int| 0 <= a < cur2.len() && single.contains(#[trigger] cur2[a].0@) implies cur2[a].1.extends is Some by {
            assert(cur2[a].0@ == orig[a].0@);
            if a != i {
                if a < i {
                    assert(orig[a].0@ != orig[i as int].0@);
                } else {
                    assert(orig[i as int].0@ != orig[a].0@);
                }
            }
        }
        lemma_resolved_chain(orig, cur2, j as int, Set::empty(), single, orig.len());
        assert(Set::<Seq<char>>::empty().union(single) =~= single);
        lemma_fuel_monotone(orig, base@, single, orig.len(), (orig.len() - 1) as nat);
        assert(extends_error(orig, name, Set::empty(), orig.len())
            == extends_error(orig, base@, single, (orig.len() - 1) as nat));
        // service `i` is resolved
        assert(resolved_from(fin[j as int].1, orig[i as int].1, fin[i as int].1));
        assert(fin[j as int].0@ == e.service_view());
        assert(extends_applied(orig, fin, i as int));
        assert(settled(orig, fin, i as int));
        assert forall|a: int| 0 <= a < fin.len() implies #[trigger] settled(orig, fin, a) by {
            if a != i {
                assert(fin[a] == cur2[a]);
                assert(settled(orig, cur2, a));
                if cur2[a].1.extends is None {
                    if let Some(ea) = orig[a].1.extends {
                        let ja = choose|ja: int| 0 <= ja < cur2.len() && (#[trigger] cur2[ja]).0@ == ea.service_view()
                            && cur2[ja].1.extends is None && resolved_from(cur2[ja].1, orig[a].1, cur2[a].1);
                        assert(ja != i);
                        assert(fin[ja] == cur2[ja]);
                    }
                }
            }
        }
        assert forall|a: int| 0 <= a < orig.len() && cur[a].1.extends is None implies #[trigger] fin[a] == cur[a] by {
            assert(cur2[a] == cur[a]);
        }
        assert forall|a: int| 0 <= a < v0.len() implies fin[#[trigger] v0[a] as int] == cur[v0[a] as int] by {
            assert(v1[a] == v0[a]);
            assert(v0[a] != i) by {
                if v0[a] == i { assert(v0.contains(i)); }
            }
        }
    }
    Ok(())
}

/// Resolve `extends:` only within the same file (no `file:` references
/// followed), for every service in file order.
pub fn resolve_extends_same_file(file: &mut ComposeFile) -> (r: Result<()>)
    requires
        old(file).wf(),
    ensures
        final(file).wf(),
        final(file).services@.len() == old(file).services@.len(),
        final(file).version == old(file).version,
        final(file).name == old(file).name,
        final(file).includes == old(file).includes,
        final(file).volumes == old(file).volumes,
        final(file).networks == old(file).networks,
        final(file).secrets == old(file).secrets,
        final(file).configs == old(file).configs,
        match r {
            Ok(()) => {
                &&& first_extends_error(old(file).services@, old(file).services@.len() as int) is None
                &&& forall|i: int| 0 <= i < old(file).services@.len()
                    ==> #[trigger] extends_applied(old(file).services@, final(file).services@, i)
            },
            Err(ComposeError::Extends(m)) => first_extends_error(old(file).services@, old(file).services@.len() as int) == Some(m@),
            Err(_) => false,
        },
{
    let ghost orig = file.services@;
    let n = file.services.len();
    proof {
        assert forall|a: int| 0 <= a < orig.len() implies #[trigger] settled(orig, orig, a) by {}
    }
    let mut i: usize = 0;
    while i < n
        invariant
            n == orig.len(),
            i <= n,
            orig == old(file).services@,
            old(file).wf(),
            unique_key_views(orig),
            progress(orig, file.services@),
            forall|k: int| 0 <= k < i ==> (#[trigger] file.services@[k]).1.extends is None,
            first_extends_error(orig, i as int) is None,
            file.version == old(file).version,
            file.name == old(file).name,
            file.includes == old(file).includes,
            file.volumes == old(file).volumes,
            file.networks == old(file).networks,
            file.secrets == old(file).secrets,
            file.configs == old(file).configs,
        decreases n - i,
    {
        let mut visited: Vec<usize> = Vec::new();
        let ghost before = file.services@;
        let res = resolve_one(&mut file.services, i, &mut visited, Ghost(orig), Ghost(n as nat));
        proof {
            assert(names_at_positions(orig, Seq::<usize>::empty()) =~= Set::<Seq<char>>::empty());
        }
        match res {
            Ok(()) => {},
            Err(e) => {
                proof {
                    lemma_keys_same(orig, file.services@);
                    if e is Extends {
                        assert(first_extends_error(orig, i + 1) == Some(e->Extends_0@));
                        lemma_first_extends_error_prefix(orig, i + 1, n as int);
                    }
                }
                return Err(e);
            },
        }
        proof {
            assert forall|k: int| 0 <= k < i + 1 implies (#[trigger] file.services@[k]).1.extends is None by {
                if k < i {
                    assert(before[k].1.extends is None);
                    assert(file.services@[k] == before[k]);
                }
            }
        }
        i = i + 1;
    }
    proof {
        lemma_keys_same(orig, file.services@);
        assert forall|a: int| 0 <= a < orig.len() implies #[trigger] extends_applied(orig, file.services@, a) by {
            assert(settled(orig, file.services@, a));
        }
    }
    Ok(())
}

proof fn lemma_first_extends_error_prefix(s: Seq<(String, Service)>, i: int, n: int)
    requires
        0 < i <= n,
        first_extends_error(s, i) is Some,
    ensures
        first_extends_error(s, n) == first_extends_error(s, i),
    decreases n - i,
{
    if i < n {
        lemma_first_extends_error_prefix(s, i + 1, n);
    }
}

} // verus!
