//! What the engine's lifecycle commands (`up`, `down`, `restart`, `logs`,
//! `exec`, `pull`, `ps`) decide before they talk to the container runtime:
//! which networks and volumes to create, in which order containers start
//! and stop, what each start waits for, and how `ps` lays out its table.
use vstd::prelude::*;
use super::{first_missing_dependency, is_start_order, resolve_order, service_keys, dependency_lists};
use super::engine::{container_name, container_name_spec, network_name_spec, resolve_network_name};
use super::types::{BuildConfig, ComposeFile, NetworkConfig, Service, ServiceCondition, VolumeConfig};
use crate::error::{ComposeError, Result};
use crate::graph::name_occurs_before;
use crate::kv::{key_views, kv_find, kv_get, kv_lookup, lemma_kv_lookup_at, lemma_kv_lookup_some, unique_key_views};
use crate::text::{decimal, join, join_exec, push_decimal};

verus! {

pub const DEFAULT_NETWORK_DRIVER: &'static str = "bridge";
/// Health polls made when the healthcheck gives no `retries:`.
pub const DEFAULT_HEALTH_RETRIES: u32 = 30;

// ---------------------------------------------------------------------------
// Networks and volumes
// ---------------------------------------------------------------------------

/// A network the project creates.
#[derive(Debug, Clone)]
pub struct NetworkCreate {
    pub name: String,
    pub driver: String,
}

/// The network an entry of `networks:` creates: none for an external one;
/// otherwise its `name:` (else its key) with its driver (else `bridge`).
pub open spec fn network_create_spec(entry: (String, Option<NetworkConfig>)) -> Option<(Seq<char>, Seq<char>)> {
    match entry.1 {
        Some(c) => if c.external == Some(true) {
            None
        } else {
            Some((
                match c.name { Some(n) => n@, None => entry.0@ },
                match c.driver { Some(d) => d@, None => DEFAULT_NETWORK_DRIVER@ },
            ))
        },
        None => Some((entry.0@, DEFAULT_NETWORK_DRIVER@)),
    }
}

pub open spec fn network_creates_spec(s: Seq<(String, Option<NetworkConfig>)>) -> Seq<(Seq<char>, Seq<char>)>
    decreases s.len(),
{
    if s.len() == 0 {
        Seq::empty()
    } else {
        let rest = network_creates_spec(s.drop_last());
        match network_create_spec(s.last()) {
            Some(x) => rest.push(x),
            None => rest,
        }
    }
}

pub open spec fn network_create_view(n: NetworkCreate) -> (Seq<char>, Seq<char>) {
    (n.name@, n.driver@)
}

/// The networks `up` creates, in file order.
pub fn networks_to_create(file: &ComposeFile) -> (r: Vec<NetworkCreate>)
    ensures
        r@.map_values(|n: NetworkCreate| network_create_view(n)) == network_creates_spec(file.networks@),
{
    let mut out: Vec<NetworkCreate> = Vec::new();
    let mut i: usize = 0;
    while i < file.networks.len()
        invariant
            i <= file.networks@.len(),
            out@.map_values(|n: NetworkCreate| network_create_view(n)) == network_creates_spec(file.networks@.take(i as int)),
        decreases file.networks@.len() - i,
    {
        let ghost pre = file.networks@.take(i as int);
        assert(file.networks@.take(i + 1).drop_last() =~= pre);
        assert(file.networks@.take(i + 1).last() == file.networks@[i as int]);
        let (key, config) = &file.networks[i];
        let ghost before = out@.map_values(|n: NetworkCreate| network_create_view(n));
        let item: Option<NetworkCreate> = match config {
            Some(c) => if c.external == Some(true) {
                None
            } else {
                let name = match &c.name {
                    Some(n) => n.clone(),
                    None => key.clone(),
                };
                let driver = match &c.driver {
                    Some(d) => d.clone(),
                    None => DEFAULT_NETWORK_DRIVER.to_string(),
                };
                Some(NetworkCreate { name, driver })
            },
            None => Some(NetworkCreate { name: key.clone(), driver: DEFAULT_NETWORK_DRIVER.to_string() }),
        };
        match item {
            Some(n) => {
                let ghost v = network_create_view(n);
                out.push(n);
                assert(out@.map_values(|n: NetworkCreate| network_create_view(n)) =~= before.push(v));
            },
            None => {},
        }
        i = i + 1;
    }
    assert(file.networks@.take(file.networks@.len() as int) =~= file.networks@);
    out
}

/// The volume an entry of `volumes:` creates: none for an external one;
/// otherwise its `name:`, else its key.
pub open spec fn volume_create_spec(entry: (String, Option<VolumeConfig>)) -> Option<Seq<char>> {
    match entry.1 {
        Some(c) => if c.external == Some(true) {
            None
        } else {
            Some(match c.name { Some(n) => n@, None => entry.0@ })
        },
        None => Some(entry.0@),
    }
}

pub open spec fn volume_creates_spec(s: Seq<(String, Option<VolumeConfig>)>) -> Seq<Seq<char>>
    decreases s.len(),
{
    if s.len() == 0 {
        Seq::empty()
    } else {
        let rest = volume_creates_spec(s.drop_last());
        match volume_create_spec(s.last()) {
            Some(x) => rest.push(x),
            None => rest,
        }
    }
}

/// The volumes `up` creates, in file order.
pub fn volumes_to_create(file: &ComposeFile) -> (r: Vec<String>)
    ensures
        r.deep_view() == volume_creates_spec(file.volumes@),
{
    let mut out: Vec<String> = Vec::new();
    let mut i: usize = 0;
    while i < file.volumes.len()
        invariant
            i <= file.volumes@.len(),
            out.deep_view() == volume_creates_spec(file.volumes@.take(i as int)),
        decreases file.volumes@.len() - i,
    {
        let ghost pre = file.volumes@.take(i as int);
        assert(file.volumes@.take(i + 1).drop_last() =~= pre);
        assert(file.volumes@.take(i + 1).last() == file.volumes@[i as int]);
        let (key, config) = &file.volumes[i];
        let ghost before = out.deep_view();
        match config {
            Some(c) => if c.external != Some(true) {
                let name = match &c.name {
                    Some(n) => n.clone(),
                    None => key.clone(),
                };
                out.push(name);
                assert(out.deep_view() =~= before.push(volume_create_spec(file.volumes@[i as int])->Some_0));
            },
            None => {
                out.push(key.clone());
                assert(out.deep_view() =~= before.push(key@));
            },
        }
        i = i + 1;
    }
    assert(file.volumes@.take(file.volumes@.len() as int) =~= file.volumes@);
    out
}

// ---------------------------------------------------------------------------
// Extra networks
// ---------------------------------------------------------------------------

/// The networks a started container is connected to after creation: none
/// with an explicit `network_mode:`, else every listed network after the
/// first, by runtime name.
pub open spec fn extra_networks_spec(service: Service, file: ComposeFile) -> Seq<Seq<char>> {
    let names = service.networks.names_view();
    if service.network_mode is Some || names.len() == 0 {
        Seq::empty()
    } else {
        Seq::new((names.len() - 1) as nat, |i: int| network_name_spec(names[i + 1], file))
    }
}

pub fn extra_networks(service: &Service, file: &ComposeFile) -> (r: Vec<String>)
    ensures
        r.deep_view() == extra_networks_spec(*service, *file),
{
    let mut out: Vec<String> = Vec::new();
    if service.network_mode.is_some() {
        assert(out.deep_view() =~= extra_networks_spec(*service, *file));
        return out;
    }
    let names = service.networks.names();
    let mut i: usize = 1;
    while i < names.len()
        invariant
            names.deep_view() == service.networks.names_view(),
            service.network_mode is None,
            1 <= i,
            names@.len() > 0 ==> i <= names@.len(),
            names@.len() == 0 ==> i == 1,
            out@.len() == i - 1,
            forall|k: int| 0 <= k < out@.len() ==> (#[trigger] out@[k])@ == network_name_spec(names.deep_view()[k + 1], *file),
        decreases names@.len() - i,
    {
        assert(names@[i as int]@ == names.deep_view()[i as int]);
        let n = resolve_network_name(names[i].as_str(), file);
        out.push(n);
        i = i + 1;
    }
    proof {
        let spec = extra_networks_spec(*service, *file);
        let nv = service.networks.names_view();
        if names@.len() > 0 {
            assert(i == names@.len());
            assert(spec.len() == nv.len() - 1);
            assert(out.deep_view().len() == out@.len());
            assert forall|k: int| 0 <= k < out@.len() implies out.deep_view()[k] == spec[k] by {
                assert(out.deep_view()[k] == out@[k]@);
                assert(spec[k] == network_name_spec(nv[k + 1], *file));
            }
        } else {
            assert(spec.len() == 0);
            assert(out@.len() == 0);
        }
        assert(out.deep_view() =~= spec);
    }
    out
}

// ---------------------------------------------------------------------------
// Containers addressed by name
// ---------------------------------------------------------------------------

/// The containers `restart` and `logs` act on: the named service's, or
/// every service's in file order.
pub open spec fn service_targets_spec(project: Seq<char>, file: ComposeFile, service_name: Option<Seq<char>>) -> core::result::Result<Seq<Seq<char>>, Seq<char>> {
    match service_name {
        Some(s) => match kv_lookup(file.services@, s) {
            Some(svc) => Ok(seq![container_name_spec(project, s, svc)]),
            None => Err(s),
        },
        None => Ok(Seq::new(file.services@.len(), |i: int| container_name_spec(project, file.services@[i].0@, file.services@[i].1))),
    }
}

/// The containers of one service or of all of them; an unknown service is
/// [`ComposeError::ServiceNotFound`].
pub fn service_targets(project: &str, file: &ComposeFile, service_name: Option<&str>) -> (r: Result<Vec<String>>)
    ensures
        match r {
            Ok(v) => service_targets_spec(project@, *file, match service_name {
                Some(s) => Some(s@),
                None => None,
            }) == Ok::<Seq<Seq<char>>, Seq<char>>(v.deep_view()),
            Err(ComposeError::ServiceNotFound(m)) => service_targets_spec(project@, *file, match service_name {
                Some(s) => Some(s@),
                None => None,
            }) == Err::<Seq<Seq<char>>, Seq<char>>(m@),
            Err(_) => false,
        },
{
    match service_name {
        Some(s) => match kv_get(&file.services, s) {
            Some(svc) => {
                let mut v: Vec<String> = Vec::new();
                v.push(container_name(project, s, svc));
                assert(v.deep_view() =~= seq![container_name_spec(project@, s@, *svc)]);
                Ok(v)
            },
            None => Err(ComposeError::ServiceNotFound(s.to_string())),
        },
        None => {
            let mut v: Vec<String> = Vec::new();
            let mut i: usize = 0;
            while i < file.services.len()
                invariant
                    i <= file.services@.len(),
                    v@.len() == i,
                    forall|k: int| 0 <= k < i ==> (#[trigger] v@[k])@
                        == container_name_spec(project@, file.services@[k].0@, file.services@[k].1),
                decreases file.services@.len() - i,
            {
                let (n, svc) = &file.services[i];
                v.push(container_name(project, n.as_str(), svc));
                i = i + 1;
            }
            assert(v.deep_view() =~= Seq::new(file.services@.len(), |i: int| container_name_spec(project@, file.services@[i].0@, file.services@[i].1)));
            Ok(v)
        },
    }
}

/// The container `exec` runs in.
pub fn exec_target(project: &str, file: &ComposeFile, service_name: &str) -> (r: Result<String>)
    ensures
        match r {
            Ok(c) => kv_lookup(file.services@, service_name@) matches Some(svc)
                && c@ == container_name_spec(project@, service_name@, svc),
            Err(ComposeError::ServiceNotFound(m)) => kv_lookup(file.services@, service_name@) is None && m@ == service_name@,
            Err(_) => false,
        },
{
    match kv_get(&file.services, service_name) {
        Some(svc) => Ok(container_name(project, service_name, svc)),
        None => Err(ComposeError::ServiceNotFound(service_name.to_string())),
    }
}

/// The images of the services that name one, in file order.
pub open spec fn images_spec(s: Seq<(String, Service)>) -> Seq<Seq<char>>
    decreases s.len(),
{
    if s.len() == 0 {
        Seq::empty()
    } else {
        let rest = images_spec(s.drop_last());
        match s.last().1.image {
            Some(i) => rest.push(i@),
            None => rest,
        }
    }
}

/// The images `pull` fetches.
pub fn images_to_pull(file: &ComposeFile) -> (r: Vec<String>)
    ensures
        r.deep_view() == images_spec(file.services@),
{
    let mut out: Vec<String> = Vec::new();
    let mut i: usize = 0;
    while i < file.services.len()
        invariant
            i <= file.services@.len(),
            out.deep_view() == images_spec(file.services@.take(i as int)),
        decreases file.services@.len() - i,
    {
        assert(file.services@.take(i + 1).drop_last() =~= file.services@.take(i as int));
        assert(file.services@.take(i + 1).last() == file.services@[i as int]);
        let ghost before = out.deep_view();
        match &file.services[i].1.image {
            Some(img) => {
                out.push(img.clone());
                assert(out.deep_view() =~= before.push(img@));
            },
            None => {},
        }
        i = i + 1;
    }
    assert(file.services@.take(file.services@.len() as int) =~= file.services@);
    out
}

pub const DEFAULT_DOCKERFILE: &'static str = "Dockerfile";

/// How `up` builds a service's image: from which context directory, with
/// which Dockerfile, under which tag.
#[derive(Debug, Clone)]
pub struct ImageBuild {
    pub context: String,
    pub dockerfile: String,
    pub tag: String,
}

pub open spec fn image_build_view(b: ImageBuild) -> (Seq<char>, Seq<char>, Seq<char>) {
    (b.context@, b.dockerfile@, b.tag@)
}

/// A service with `build:` is built from its context, with its `dockerfile:`
/// (else `Dockerfile`), tagged with its `image:` (else `<service>:latest`);
/// a service without one is not built.
pub open spec fn image_build_spec(name: Seq<char>, service: Service) -> Option<(Seq<char>, Seq<char>, Seq<char>)> {
    match service.build {
        None => None,
        Some(b) => Some((
            match b {
                BuildConfig::Context(c) => c@,
                BuildConfig::Config { context, .. } => context@,
            },
            match b {
                BuildConfig::Config { dockerfile: Some(d), .. } => d@,
                _ => DEFAULT_DOCKERFILE@,
            },
            match service.image {
                Some(i) => i@,
                None => name + ":latest"@,
            },
        )),
    }
}

pub fn image_build(service_name: &str, service: &Service) -> (r: Option<ImageBuild>)
    ensures
        match r {
            Some(b) => image_build_spec(service_name@, *service) == Some(image_build_view(b)),
            None => image_build_spec(service_name@, *service) is None,
        },
{
    match &service.build {
        None => None,
        Some(b) => {
            let context = b.context().to_string();
            let dockerfile = match b.dockerfile() {
                Some(d) => d.to_string(),
                None => DEFAULT_DOCKERFILE.to_string(),
            };
            let tag = match &service.image {
                Some(i) => i.clone(),
                None => {
                    let mut t = service_name.to_string();
                    t.append(":latest");
                    t
                },
            };
            Some(ImageBuild { context, dockerfile, tag })
        },
    }
}

// ---------------------------------------------------------------------------
// Starting and stopping
// ---------------------------------------------------------------------------

/// A dependency whose container must report healthy before a service
/// starts, with how many times it is polled.
#[derive(Debug, Clone)]
pub struct HealthWait {
    pub container: String,
    pub retries: u32,
}

pub open spec fn health_wait_view(w: HealthWait) -> (Seq<char>, u32) {
    (w.container@, w.retries)
}

/// How many health polls a service gets: its healthcheck's `retries:`,
/// else 30.
pub open spec fn health_retries(s: Service) -> u32 {
    match s.healthcheck {
        Some(h) => match h.retries {
            Some(n) => n,
            None => DEFAULT_HEALTH_RETRIES,
        },
        None => DEFAULT_HEALTH_RETRIES,
    }
}

/// The wait one dependency `d` of a service adds: its container and poll
/// count when its condition is `service_healthy`.
#[verifier::opaque]
pub open spec fn health_wait_for(project: Seq<char>, file: ComposeFile, service: Service, d: Seq<char>) -> Option<(Seq<char>, u32)> {
    if service.depends_on.condition_view(d) == ServiceCondition::ServiceHealthy {
        match kv_lookup(file.services@, d) {
            Some(ds) => Some((container_name_spec(project, d, ds), health_retries(ds))),
            None => None,
        }
    } else {
        None
    }
}

/// The waits of a service: for each dependency (in declaration order)
/// whose condition is `service_healthy`, its container and poll count.
pub open spec fn health_waits_spec(project: Seq<char>, file: ComposeFile, service: Service, deps: Seq<Seq<char>>) -> Seq<(Seq<char>, u32)>
    decreases deps.len(),
{
    if deps.len() == 0 {
        Seq::empty()
    } else {
        let rest = health_waits_spec(project, file, service, deps.drop_last());
        match health_wait_for(project, file, service, deps.last()) {
            Some(x) => rest.push(x),
            None => rest,
        }
    }
}

fn is_healthy_condition(c: ServiceCondition) -> (r: bool)
    ensures
        r == (c == ServiceCondition::ServiceHealthy),
{
    match c {
        ServiceCondition::ServiceHealthy => true,
        _ => false,
    }
}

fn health_wait_of(project: &str, file: &ComposeFile, service: &Service, d: &str) -> (r: Option<HealthWait>)
    ensures
        match r {
            Some(w) => health_wait_for(project@, *file, *service, d@) == Some(health_wait_view(w)),
            None => health_wait_for(project@, *file, *service, d@) is None,
        },
{
    reveal(health_wait_for);
    if !is_healthy_condition(service.depends_on.condition_for(d)) {
        return None;
    }
    match kv_get(&file.services, d) {
        Some(ds) => {
            let retries: u32 = match &ds.healthcheck {
                Some(h) => match h.retries {
                    Some(n) => n,
                    None => DEFAULT_HEALTH_RETRIES,
                },
                None => DEFAULT_HEALTH_RETRIES,
            };
            Some(HealthWait { container: container_name(project, d, ds), retries })
        },
        None => None,
    }
}

fn health_waits(project: &str, file: &ComposeFile, service: &Service) -> (r: Vec<HealthWait>)
    ensures
        r@.map_values(|w: HealthWait| health_wait_view(w))
            == health_waits_spec(project@, *file, *service, service.depends_on.names_view()),
{
    let deps = service.depends_on.service_names();
    let ghost dv = deps.deep_view();
    let mut out: Vec<HealthWait> = Vec::new();
    let mut k: usize = 0;
    assert(dv.take(0) =~= Seq::<Seq<char>>::empty());
    while k < deps.len()
        invariant
            dv == deps.deep_view(),
            dv == service.depends_on.names_view(),
            k <= dv.len(),
            out@.map_values(|w: HealthWait| health_wait_view(w)) == health_waits_spec(project@, *file, *service, dv.take(k as int)),
        decreases dv.len() - k,
    {
        assert(dv.take(k + 1).drop_last() =~= dv.take(k as int));
        assert(dv.take(k + 1).last() == dv[k as int]);
        assert(deps@[k as int]@ == dv[k as int]);
        let ghost before = out@.map_values(|w: HealthWait| health_wait_view(w));
        match health_wait_of(project, file, service, deps[k].as_str()) {
            Some(w) => {
                let ghost wv = health_wait_view(w);
                out.push(w);
                assert(out@.map_values(|w: HealthWait| health_wait_view(w)) =~= before.push(wv));
            },
            None => {},
        }
        k = k + 1;
    }
    assert(dv.take(dv.len() as int) =~= dv);
    out
}

/// What `up` does for one service, in start order: wait for the
/// dependencies that must be healthy, build its image (when it has a
/// `build:`) or pull it, create and start its container, then connect the
/// container to its other networks.
#[derive(Debug, Clone)]
pub struct StartStep {
    pub service: String,
    pub container: String,
    pub wait_for: Vec<HealthWait>,
    pub build: bool,
    pub extra_networks: Vec<String>,
}

/// `st` is the start step of the service it names.
pub open spec fn step_matches(project: Seq<char>, file: ComposeFile, st: StartStep) -> bool {
    match kv_lookup(file.services@, st.service@) {
        Some(s) => {
            &&& st.container@ == container_name_spec(project, st.service@, s)
            &&& st.wait_for@.map_values(|w: HealthWait| health_wait_view(w))
                == health_waits_spec(project, file, s, s.depends_on.names_view())
            &&& st.build == s.build is Some
            &&& st.extra_networks.deep_view() == extra_networks_spec(s, file)
        },
        None => false,
    }
}

pub open spec fn step_service(st: StartStep) -> Seq<char> {
    st.service@
}

/// The steps of `up`: one per service, in a start order (dependencies
/// first); fails as [`resolve_order`] does.
pub fn plan_up(project: &str, file: &ComposeFile) -> (r: Result<Vec<StartStep>>)
    requires
        file.wf(),
    ensures
        match r {
            Ok(steps) => {
                &&& first_missing_dependency(*file) is None
                &&& is_start_order(*file, steps@.map_values(|s: StartStep| step_service(s)))
                &&& forall|p: int| 0 <= p < steps@.len() ==> step_matches(project@, *file, #[trigger] steps@[p])
            },
            Err(ComposeError::ServiceNotFound(d)) => first_missing_dependency(*file) == Some(d@),
            Err(ComposeError::CircularDependency(m)) => {
                &&& first_missing_dependency(*file) is None
                &&& m@ == "cycle detected in depends_on"@
                &&& forall|o: Seq<Seq<char>>| !is_start_order(*file, o)
            },
            Err(_) => false,
        },
{
    let order = match resolve_order(file) {
        Ok(o) => o,
        Err(e) => return Err(e),
    };
    let ghost ov = order.deep_view();
    let mut steps: Vec<StartStep> = Vec::new();
    let mut p: usize = 0;
    while p < order.len()
        invariant
            ov == order.deep_view(),
            is_start_order(*file, ov),
            p <= ov.len(),
            steps@.map_values(|s: StartStep| step_service(s)) == ov.take(p as int),
            forall|q: int| 0 <= q < steps@.len() ==> step_matches(project@, *file, #[trigger] steps@[q]),
        decreases ov.len() - p,
    {
        let name = order[p].as_str();
        assert(order@[p as int]@ == ov[p as int]);
        proof {
            assert(service_keys(*file).contains(ov[p as int]));
            lemma_kv_lookup_some(file.services@, ov[p as int]);
        }
        let svc = match kv_get(&file.services, name) {
            Some(s) => s,
            None => {
                assert(false);
                return Err(ComposeError::ServiceNotFound(order[p].clone()));
            },
        };
        let st = StartStep {
            service: order[p].clone(),
            container: container_name(project, name, svc),
            wait_for: health_waits(project, file, svc),
            build: svc.build.is_some(),
            extra_networks: extra_networks(svc, file),
        };
        assert(step_matches(project@, *file, st));
        let ghost before = steps@.map_values(|s: StartStep| step_service(s));
        steps.push(st);
        assert(steps@.map_values(|s: StartStep| step_service(s)) =~= before.push(ov[p as int]));
        assert(ov.take(p + 1) =~= ov.take(p as int).push(ov[p as int]));
        p = p + 1;
    }
    assert(ov.take(ov.len() as int) =~= ov);
    Ok(steps)
}

/// The containers `down` stops and removes: every service's, in the
/// reverse of a start order.
pub open spec fn stop_order_spec(project: Seq<char>, file: ComposeFile, order: Seq<Seq<char>>) -> Seq<Seq<char>> {
    Seq::new(order.len(), |i: int| {
        let n = order[order.len() - 1 - i];
        match kv_lookup(file.services@, n) {
            Some(s) => container_name_spec(project, n, s),
            None => Seq::empty(),
        }
    })
}

pub fn plan_down(project: &str, file: &ComposeFile) -> (r: Result<Vec<String>>)
    requires
        file.wf(),
    ensures
        match r {
            Ok(v) => {
                &&& first_missing_dependency(*file) is None
                &&& exists|o: Seq<Seq<char>>| is_start_order(*file, o) && #[trigger] stop_order_spec(project@, *file, o) == v.deep_view()
            },
            Err(ComposeError::ServiceNotFound(d)) => first_missing_dependency(*file) == Some(d@),
            Err(ComposeError::CircularDependency(m)) => {
                &&& first_missing_dependency(*file) is None
                &&& m@ == "cycle detected in depends_on"@
                &&& forall|o: Seq<Seq<char>>| !is_start_order(*file, o)
            },
            Err(_) => false,
        },
{
    let order = match resolve_order(file) {
        Ok(o) => o,
        Err(e) => return Err(e),
    };
    let ghost ov = order.deep_view();
    let n = order.len();
    let mut out: Vec<String> = Vec::new();
    let mut i: usize = 0;
    while i < n
        invariant
            ov == order.deep_view(),
            n == ov.len(),
            is_start_order(*file, ov),
            i <= n,
            out@.len() == i,
            forall|k: int| 0 <= k < i ==> (#[trigger] out@[k])@ == stop_order_spec(project@, *file, ov)[k],
        decreases n - i,
    {
        let j = n - 1 - i;
        let name = order[j].as_str();
        assert(order@[j as int]@ == ov[j as int]);
        proof {
            assert(service_keys(*file).contains(ov[j as int]));
            lemma_kv_lookup_some(file.services@, ov[j as int]);
        }
        match kv_get(&file.services, name) {
            Some(s) => out.push(container_name(project, name, s)),
            None => {
                assert(false);
                out.push(String::new());
            },
        }
        i = i + 1;
    }
    assert(out.deep_view() =~= stop_order_spec(project@, *file, ov));
    Ok(out)
}

/// What to do after a health poll of a container: go on once it is
/// healthy, give up once every poll is spent, else poll again.
#[derive(Debug, Clone, Copy, PartialEq, Eq)]
pub enum HealthPoll {
    Ready,
    PollAgain,
    TimedOut,
}

pub open spec fn health_poll_spec(polls_done: u32, retries: u32, healthy: bool) -> HealthPoll {
    if healthy {
        HealthPoll::Ready
    } else if polls_done >= retries {
        HealthPoll::TimedOut
    } else {
        HealthPoll::PollAgain
    }
}

/// The next move of a wait for a healthy container, after `polls_done`
/// polls of the `retries` allowed (called with 0 and `false` before the
/// first poll); a timed-out wait fails with
/// [`ComposeError::HealthCheckTimeout`].
pub fn health_poll(polls_done: u32, retries: u32, healthy: bool) -> (r: HealthPoll)
    ensures
        r == health_poll_spec(polls_done, retries, healthy),
{
    if healthy {
        HealthPoll::Ready
    } else if polls_done >= retries {
        HealthPoll::TimedOut
    } else {
        HealthPoll::PollAgain
    }
}

// ---------------------------------------------------------------------------
// `ps`
// ---------------------------------------------------------------------------

pub const PROJECT_LABEL_FILTER: &'static str = "lynx.compose.project=";

/// The label filter that selects the project's containers.
pub fn ps_label(project: &str) -> (r: String)
    ensures
        r@ == PROJECT_LABEL_FILTER@ + project@,
{
    let mut r = PROJECT_LABEL_FILTER.to_string();
    r.append(project);
    r
}

/// `s` padded with spaces on the right to `w` characters.
pub open spec fn pad_right(s: Seq<char>, w: nat) -> Seq<char> {
    if s.len() >= w {
        s
    } else {
        s + Seq::new((w - s.len()) as nat, |i: int| ' ')
    }
}

/// `s` without its leading `/` characters.
pub open spec fn trim_start_slashes(s: Seq<char>) -> Seq<char>
    decreases s.len(),
{
    if s.len() > 0 && s[0] == '/' {
        trim_start_slashes(s.drop_first())
    } else {
        s
    }
}

/// A published port of a listed container.
#[derive(Debug, Clone)]
pub struct PsPort {
    pub ip: Option<String>,
    pub public_port: Option<u16>,
    pub private_port: u16,
}

/// `ip:public->private`, an absent address or port shown empty or 0.
pub open spec fn port_text(p: PsPort) -> Seq<char> {
    (match p.ip {
        Some(i) => i@,
        None => Seq::empty(),
    }) + ":"@ + decimal(match p.public_port {
        Some(n) => n as nat,
        None => 0,
    }) + "->"@ + decimal(p.private_port as nat)
}

/// The heading of the `ps` table.
pub open spec fn ps_header_spec() -> Seq<char> {
    pad_right("NAME"@, 40) + " "@ + pad_right("IMAGE"@, 30) + " "@ + pad_right("STATUS"@, 20)
}

/// One line of the `ps` table: the container's names (joined, leading `/`
/// removed), image and status in padded columns, then its ports.
pub open spec fn ps_row_spec(names: Seq<Seq<char>>, image: Seq<char>, status: Seq<char>, ports: Seq<PsPort>) -> Seq<char> {
    pad_right(trim_start_slashes(join(names, ", "@)), 40) + " "@ + pad_right(image, 30) + " "@
        + pad_right(status, 20) + " "@ + join(Seq::new(ports.len(), |i: int| port_text(ports[i])), ", "@)
}

fn push_padded(s: &mut String, text: &str, width: usize)
    ensures
        final(s)@ == old(s)@ + pad_right(text@, width as nat),
{
    let ghost s0 = s@;
    s.append(text);
    let n = text.unicode_len();
    let mut k: usize = n;
    while k < width
        invariant
            n == text@.len(),
            n <= k,
            k <= width || k == n,
            s@ == s0 + text@ + Seq::new((k - n) as nat, |i: int| ' '),
        decreases width - k,
    {
        let ghost before = s@;
        crate::text::push_char(s, ' ');
        assert(s@ =~= s0 + text@ + Seq::new((k + 1 - n) as nat, |i: int| ' '));
        k = k + 1;
    }
    proof {
        if n >= width {
            assert(Seq::new((k - n) as nat, |i: int| ' ') =~= Seq::<char>::empty());
            assert(s@ =~= s0 + text@);
        } else {
            assert(k == width);
        }
    }
}

pub fn ps_header() -> (r: String)
    ensures
        r@ == ps_header_spec(),
{
    let mut r = String::new();
    push_padded(&mut r, "NAME", 40);
    r.append(" ");
    push_padded(&mut r, "IMAGE", 30);
    r.append(" ");
    push_padded(&mut r, "STATUS", 20);
    assert(r@ =~= ps_header_spec());
    r
}

fn trim_start_slashes_exec(s: &str) -> (r: String)
    ensures
        r@ == trim_start_slashes(s@),
{
    let v = crate::text::chars_of(s);
    let mut i: usize = 0;
    assert(v@.skip(0) =~= v@);
    while i < v.len() && v[i] == '/'
        invariant
            v@ == s@,
            i <= v@.len(),
            trim_start_slashes(v@.skip(i as int)) == trim_start_slashes(s@),
        decreases v@.len() - i,
    {
        assert(v@.skip(i as int).drop_first() =~= v@.skip(i + 1));
        i = i + 1;
    }
    let n = v.len();
    let rest = crate::text::slice_chars(v.as_slice(), i, n);
    assert(rest@ =~= v@.skip(i as int));
    crate::text::string_of(rest.as_slice())
}

fn port_text_exec(p: &PsPort) -> (r: String)
    ensures
        r@ == port_text(*p),
{
    let mut r = match &p.ip {
        Some(i) => i.clone(),
        None => String::new(),
    };
    r.append(":");
    let public: u64 = match p.public_port {
        Some(n) => n as u64,
        None => 0,
    };
    push_decimal(&mut r, public);
    r.append("->");
    push_decimal(&mut r, p.private_port as u64);
    r
}

pub fn ps_row(names: &Vec<String>, image: Option<&str>, status: Option<&str>, ports: &Vec<PsPort>) -> (r: String)
    ensures
        r@ == ps_row_spec(
            names.deep_view(),
            match image { Some(i) => i@, None => Seq::empty() },
            match status { Some(s) => s@, None => Seq::empty() },
            ports@,
        ),
{
    let joined = join_exec(names, ", ");
    let shown = trim_start_slashes_exec(joined.as_str());
    let mut r = String::new();
    push_padded(&mut r, shown.as_str(), 40);
    r.append(" ");
    proof { reveal_strlit(""); }
    push_padded(&mut r, match image { Some(i) => i, None => "" }, 30);
    r.append(" ");
    push_padded(&mut r, match status { Some(s) => s, None => "" }, 20);
    r.append(" ");
    let mut texts: Vec<String> = Vec::new();
    let mut i: usize = 0;
    while i < ports.len()
        invariant
            i <= ports@.len(),
            texts@.len() == i,
            forall|k: int| 0 <= k < i ==> (#[trigger] texts@[k])@ == port_text(ports@[k]),
        decreases ports@.len() - i,
    {
        texts.push(port_text_exec(&ports[i]));
        i = i + 1;
    }
    assert(texts.deep_view() =~= Seq::new(ports@.len(), |i: int| port_text(ports@[i])));
    let pj = join_exec(&texts, ", ");
    r.append(pj.as_str());
    r
}

} // verus!
