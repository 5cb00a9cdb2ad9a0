//! Volume, secret and config mounts of a service's container.
use vstd::prelude::*;
use super::types::{
    BindOptions, ComposeFile, ConfigConfig, SecretConfig, Service, ServiceConfigRef,
    ServiceSecretRef, VolumeMount, VolumeOptions, VolumeType,
};
use crate::kv::{kv_get, kv_lookup};
use crate::text::{join, join_exec, starts_with};

verus! {

// ---------------------------------------------------------------------------
// Volume binds
// ---------------------------------------------------------------------------

/// The mount options a bind's own settings add: its propagation mode, then
/// its SELinux label.
pub open spec fn bind_opts_spec(b: BindOptions) -> Seq<Seq<char>> {
    (match b.propagation {
        Some(p) => seq![p@],
        None => Seq::empty(),
    }) + (match b.selinux {
        Some(s) => seq![s@],
        None => Seq::empty(),
    })
}

/// The mount options a volume's own settings add: `nocopy` when asked for.
pub open spec fn volume_opts_spec(v: VolumeOptions) -> Seq<Seq<char>> {
    if v.nocopy == Some(true) { seq!["nocopy"@] } else { Seq::empty() }
}

/// The options of a long-form mount: `ro` or `rw`, then the bind and
/// volume options.
pub open spec fn mount_opts_spec(read_only: Option<bool>, bind: Option<BindOptions>, volume: Option<VolumeOptions>) -> Seq<Seq<char>> {
    seq![if read_only == Some(true) { "ro"@ } else { "rw"@ }]
        + (match bind {
            Some(b) => bind_opts_spec(b),
            None => Seq::empty(),
        })
        + (match volume {
            Some(v) => volume_opts_spec(v),
            None => Seq::empty(),
        })
}

/// The bind of one volume: a short form as written; a tmpfs mount none;
/// another long form `source:target:options`.
pub open spec fn volume_bind_spec(v: VolumeMount) -> Option<Seq<char>> {
    match v {
        VolumeMount::Short(s) => Some(s@),
        VolumeMount::Long { volume_type, source, target, read_only, bind, volume, .. } => {
            if volume_type == VolumeType::Tmpfs {
                None
            } else {
                let src = match source {
                    Some(x) => x@,
                    None => Seq::empty(),
                };
                Some(src + ":"@ + target@ + ":"@ + join(mount_opts_spec(read_only, bind, volume), ","@))
            }
        },
    }
}

/// The binds of a list of volumes, in order, tmpfs mounts left out.
pub open spec fn volume_binds_spec(vs: Seq<VolumeMount>) -> Seq<Seq<char>>
    decreases vs.len(),
{
    if vs.len() == 0 {
        Seq::empty()
    } else {
        let rest = volume_binds_spec(vs.drop_last());
        match volume_bind_spec(vs.last()) {
            Some(b) => rest.push(b),
            None => rest,
        }
    }
}

/// Appends the options of a bind's own settings.
pub fn extend_bind_opts(opts: &mut Vec<String>, b: &BindOptions)
    ensures
        final(opts).deep_view() == old(opts).deep_view() + bind_opts_spec(*b),
{
    let ghost o0 = opts.deep_view();
    if let Some(p) = &b.propagation {
        opts.push(p.clone());
    }
    let ghost o1 = opts.deep_view();
    assert(o1 =~= o0 + match b.propagation {
        Some(p) => seq![p@],
        None => Seq::<Seq<char>>::empty(),
    });
    if let Some(s) = &b.selinux {
        opts.push(s.clone());
    }
    assert(opts.deep_view() =~= o0 + bind_opts_spec(*b));
}

/// Appends the options of a volume's own settings.
pub fn extend_volume_opts(opts: &mut Vec<String>, v: &VolumeOptions)
    ensures
        final(opts).deep_view() == old(opts).deep_view() + volume_opts_spec(*v),
{
    let ghost o0 = opts.deep_view();
    if let Some(true) = v.nocopy {
        opts.push("nocopy".to_string());
    }
    assert(opts.deep_view() =~= o0 + volume_opts_spec(*v));
}

/// Build the bind list of a service's volumes.
pub fn build_binds(service: &Service) -> (r: Vec<String>)
    ensures
        r.deep_view() == volume_binds_spec(service.volumes@),
{
    let mut out: Vec<String> = Vec::new();
    let mut i: usize = 0;
    while i < service.volumes.len()
        invariant
            i <= service.volumes@.len(),
            out.deep_view() == volume_binds_spec(service.volumes@.take(i as int)),
        decreases service.volumes@.len() - i,
    {
        let v = &service.volumes[i];
        assert(service.volumes@.take(i + 1).drop_last() =~= service.volumes@.take(i as int));
        assert(service.volumes@.take(i + 1).last() == *v);
        let ghost before = out.deep_view();
        match v {
            VolumeMount::Short(s) => {
                out.push(s.clone());
                assert(out.deep_view() =~= before.push(s@));
            },
            VolumeMount::Long { volume_type, source, target, read_only, bind, volume, .. } => {
                if !matches!(volume_type, VolumeType::Tmpfs) {
                    let mut opts: Vec<String> = Vec::new();
                    if let Some(true) = read_only {
                        opts.push("ro".to_string());
                    } else {
                        opts.push("rw".to_string());
                    }
                    let ghost o0 = opts.deep_view();
                    if let Some(b) = bind {
                        extend_bind_opts(&mut opts, b);
                    }
                    let ghost o1 = opts.deep_view();
                    assert(o1 =~= o0 + match *bind {
                        Some(b) => bind_opts_spec(b),
                        None => Seq::<Seq<char>>::empty(),
                    });
                    if let Some(vol) = volume {
                        extend_volume_opts(&mut opts, vol);
                    }
                    assert(opts.deep_view() =~= mount_opts_spec(*read_only, *bind, *volume));
                    let mut b = match source {
                        Some(x) => x.clone(),
                        None => String::new(),
                    };
                    b.append(":");
                    b.append(target.as_str());
                    b.append(":");
                    let joined = join_exec(&opts, ",");
                    b.append(joined.as_str());
                    out.push(b);
                    assert(out.deep_view() =~= before.push(b@));
                }
            },
        }
        i = i + 1;
    }
    assert(service.volumes@.take(service.volumes@.len() as int) =~= service.volumes@);
    out
}

/// `base/rel` as `Path::join` forms it: an absolute `rel` stands alone, and
/// a separator is added only when `base` lacks one.
pub open spec fn path_join(base: Seq<char>, rel: Seq<char>) -> Seq<char> {
    if rel.len() > 0 && rel[0] == '/' {
        rel
    } else if base.len() == 0 {
        rel
    } else if base.last() == '/' {
        base + rel
    } else {
        base + "/"@ + rel
    }
}

pub fn path_join_exec(base: &str, rel: &str) -> (r: String)
    ensures
        r@ == path_join(base@, rel@),
{
    let rv = crate::text::chars_of(rel);
    let bv = crate::text::chars_of(base);
    if rv.len() > 0 && rv[0] == '/' {
        return rel.to_string();
    }
    if bv.len() == 0 {
        return rel.to_string();
    }
    let mut r = base.to_string();
    if bv[bv.len() - 1] != '/' {
        r.append("/");
    }
    r.append(rel);
    r
}

/// The host directories to create before the container starts: the
/// sources of bind mounts that ask for `create_host_path`, resolved
/// against `base_dir`.
pub open spec fn host_dirs_spec(vs: Seq<VolumeMount>, base_dir: Seq<char>) -> Seq<Seq<char>>
    decreases vs.len(),
{
    if vs.len() == 0 {
        Seq::empty()
    } else {
        let rest = host_dirs_spec(vs.drop_last(), base_dir);
        match vs.last() {
            VolumeMount::Long { volume_type: VolumeType::Bind, source, bind: Some(b), .. } => {
                let src = match source {
                    Some(x) => x@,
                    None => Seq::empty(),
                };
                if b.create_host_path == Some(true) && src.len() > 0 {
                    rest.push(path_join(base_dir, src))
                } else {
                    rest
                }
            },
            _ => rest,
        }
    }
}

pub fn host_dirs_to_create(service: &Service, base_dir: &str) -> (r: Vec<String>)
    ensures
        r.deep_view() == host_dirs_spec(service.volumes@, base_dir@),
{
    let mut out: Vec<String> = Vec::new();
    let mut i: usize = 0;
    while i < service.volumes.len()
        invariant
            i <= service.volumes@.len(),
            out.deep_view() == host_dirs_spec(service.volumes@.take(i as int), base_dir@),
        decreases service.volumes@.len() - i,
    {
        let v = &service.volumes[i];
        assert(service.volumes@.take(i + 1).drop_last() =~= service.volumes@.take(i as int));
        assert(service.volumes@.take(i + 1).last() == *v);
        let ghost before = out.deep_view();
        if let VolumeMount::Long { volume_type: VolumeType::Bind, source, bind: Some(b), .. } = v {
            let src = match source {
                Some(x) => x.as_str(),
                None => "",
            };
            proof { reveal_strlit(""); }
            if b.create_host_path == Some(true) && src.unicode_len() > 0 {
                let p = path_join_exec(base_dir, src);
                out.push(p);
                assert(out.deep_view() =~= before.push(p@));
            }
        }
        i = i + 1;
    }
    assert(service.volumes@.take(service.volumes@.len() as int) =~= service.volumes@);
    out
}

// ---------------------------------------------------------------------------
// Secret and config mounts
// ---------------------------------------------------------------------------

pub const SECRETS_TARGET_DIR: &'static str = "/run/secrets/";
pub const CONFIGS_TARGET_DIR: &'static str = "/";

/// Where a mounted secret or config comes from.
#[derive(Debug, Clone, PartialEq, Eq)]
pub enum MountSource {
    /// A file of the host.
    HostFile(String),
    /// Inline content, written to a file first.
    Inline(String),
    /// The value of a host environment variable, written to a file first.
    FromEnv(String),
}

/// One secret or config to mount read-only in the container.
#[derive(Debug, Clone)]
pub struct PlannedMount {
    pub name: String,
    pub target: String,
    pub source: MountSource,
}

/// What a planned mount stands for: name, target and source.
pub open spec fn planned_view(m: PlannedMount) -> (Seq<char>, Seq<char>, MountSource) {
    (m.name@, m.target@, m.source)
}

/// The source of a defined secret, if it is mounted: a host file first,
/// then inline content, then an environment variable; external and other
/// secrets mount nothing.
pub open spec fn secret_source(c: SecretConfig) -> Option<MountSource> {
    match c {
        SecretConfig { file: Some(h), .. } => Some(MountSource::HostFile(h)),
        SecretConfig { content: Some(x), .. } => Some(MountSource::Inline(x)),
        SecretConfig { environment: Some(v), .. } => Some(MountSource::FromEnv(v)),
        _ => None,
    }
}

/// The source of a defined config, in the same order as for secrets.
pub open spec fn config_source(c: ConfigConfig) -> Option<MountSource> {
    match c {
        ConfigConfig { file: Some(h), .. } => Some(MountSource::HostFile(h)),
        ConfigConfig { content: Some(x), .. } => Some(MountSource::Inline(x)),
        ConfigConfig { environment: Some(v), .. } => Some(MountSource::FromEnv(v)),
        _ => None,
    }
}

/// The secret mounts of a service: for each reference to a defined secret
/// with a source, its name, its target (the reference's, else
/// `/run/secrets/<name>`) and source; other references are skipped.
pub open spec fn secret_mounts_spec(refs: Seq<ServiceSecretRef>, secrets: Seq<(String, SecretConfig)>) -> Seq<(Seq<char>, Seq<char>, MountSource)>
    decreases refs.len(),
{
    if refs.len() == 0 {
        Seq::empty()
    } else {
        let rest = secret_mounts_spec(refs.drop_last(), secrets);
        let r = refs.last();
        let name = r.source_view();
        let target = match r {
            ServiceSecretRef::Long { target: Some(t), .. } => t@,
            _ => SECRETS_TARGET_DIR@ + name,
        };
        match kv_lookup(secrets, name) {
            Some(c) => match secret_source(c) {
                Some(src) => rest.push((name, target, src)),
                None => rest,
            },
            None => rest,
        }
    }
}

/// The config mounts of a service, as for secrets with the default target
/// `/<name>`.
pub open spec fn config_mounts_spec(refs: Seq<ServiceConfigRef>, configs: Seq<(String, ConfigConfig)>) -> Seq<(Seq<char>, Seq<char>, MountSource)>
    decreases refs.len(),
{
    if refs.len() == 0 {
        Seq::empty()
    } else {
        let rest = config_mounts_spec(refs.drop_last(), configs);
        let r = refs.last();
        let name = r.source_view();
        let target = match r {
            ServiceConfigRef::Long { target: Some(t), .. } => t@,
            _ => CONFIGS_TARGET_DIR@ + name,
        };
        match kv_lookup(configs, name) {
            Some(c) => match config_source(c) {
                Some(src) => rest.push((name, target, src)),
                None => rest,
            },
            None => rest,
        }
    }
}

fn secret_source_exec(c: &SecretConfig) -> (r: Option<MountSource>)
    ensures
        r == secret_source(*c),
{
    match c {
        SecretConfig { file: Some(h), .. } => Some(MountSource::HostFile(h.clone())),
        SecretConfig { content: Some(x), .. } => Some(MountSource::Inline(x.clone())),
        SecretConfig { environment: Some(v), .. } => Some(MountSource::FromEnv(v.clone())),
        _ => None,
    }
}

fn config_source_exec(c: &ConfigConfig) -> (r: Option<MountSource>)
    ensures
        r == config_source(*c),
{
    match c {
        ConfigConfig { file: Some(h), .. } => Some(MountSource::HostFile(h.clone())),
        ConfigConfig { content: Some(x), .. } => Some(MountSource::Inline(x.clone())),
        ConfigConfig { environment: Some(v), .. } => Some(MountSource::FromEnv(v.clone())),
        _ => None,
    }
}

/// Plan the secret mounts of a service.
pub fn plan_secret_mounts(service: &Service, file: &ComposeFile) -> (r: Vec<PlannedMount>)
    ensures
        r@.map_values(|m: PlannedMount| planned_view(m)) == secret_mounts_spec(service.secrets@, file.secrets@),
{
    let mut out: Vec<PlannedMount> = Vec::new();
    let mut i: usize = 0;
    while i < service.secrets.len()
        invariant
            i <= service.secrets@.len(),
            out@.map_values(|m: PlannedMount| planned_view(m)) == secret_mounts_spec(service.secrets@.take(i as int), file.secrets@),
        decreases service.secrets@.len() - i,
    {
        let r = &service.secrets[i];
        assert(service.secrets@.take(i + 1).drop_last() =~= service.secrets@.take(i as int));
        assert(service.secrets@.take(i + 1).last() == *r);
        let name = r.source();
        let target = match r {
            ServiceSecretRef::Long { target: Some(t), .. } => t.clone(),
            _ => {
                let mut t = SECRETS_TARGET_DIR.to_string();
                t.append(name);
                t
            },
        };
        let ghost before = out@.map_values(|m: PlannedMount| planned_view(m));
        match kv_get(&file.secrets, name) {
            Some(c) => match secret_source_exec(c) {
                Some(src) => {
                    let m = PlannedMount { name: name.to_string(), target, source: src };
                    out.push(m);
                    assert(out@.map_values(|m: PlannedMount| planned_view(m)) =~= before.push(planned_view(m)));
                },
                None => {},
            },
            None => {},
        }
        i = i + 1;
    }
    assert(service.secrets@.take(service.secrets@.len() as int) =~= service.secrets@);
    out
}

/// Plan the config mounts of a service.
pub fn plan_config_mounts(service: &Service, file: &ComposeFile) -> (r: Vec<PlannedMount>)
    ensures
        r@.map_values(|m: PlannedMount| planned_view(m)) == config_mounts_spec(service.configs@, file.configs@),
{
    let mut out: Vec<PlannedMount> = Vec::new();
    let mut i: usize = 0;
    while i < service.configs.len()
        invariant
            i <= service.configs@.len(),
            out@.map_values(|m: PlannedMount| planned_view(m)) == config_mounts_spec(service.configs@.take(i as int), file.configs@),
        decreases service.configs@.len() - i,
    {
        let r = &service.configs[i];
        assert(service.configs@.take(i + 1).drop_last() =~= service.configs@.take(i as int));
        assert(service.configs@.take(i + 1).last() == *r);
        let name = r.source();
        let target = match r {
            ServiceConfigRef::Long { target: Some(t), .. } => t.clone(),
            _ => {
                let mut t = CONFIGS_TARGET_DIR.to_string();
                t.append(name);
                t
            },
        };
        let ghost before = out@.map_values(|m: PlannedMount| planned_view(m));
        match kv_get(&file.configs, name) {
            Some(c) => match config_source_exec(c) {
                Some(src) => {
                    let m = PlannedMount { name: name.to_string(), target, source: src };
                    out.push(m);
                    assert(out@.map_values(|m: PlannedMount| planned_view(m)) =~= before.push(planned_view(m)));
                },
                None => {},
            },
            None => {},
        }
        i = i + 1;
    }
    assert(service.configs@.take(service.configs@.len() as int) =~= service.configs@);
    out
}

/// A read-only bind of `host` at `target`.
pub fn read_only_bind(host: &str, target: &str) -> (r: String)
    ensures
        r@ == host@ + ":"@ + target@ + ":ro"@,
{
    let mut b = host.to_string();
    b.append(":");
    b.append(target);
    b.append(":ro");
    b
}

pub const INLINE_DIR_PREFIX: &'static str = "lynx-compose-";

/// Where inline secret or config content of `kind` (`secrets` or `configs`)
/// named `name` is written for project `project`:
/// `<temp>/lynx-compose-<project>/<kind>/<name>`.
pub open spec fn inline_file_spec(temp_dir: Seq<char>, project: Seq<char>, kind: Seq<char>, name: Seq<char>) -> Seq<char> {
    path_join(path_join(path_join(temp_dir, INLINE_DIR_PREFIX@ + project), kind), name)
}

pub fn inline_file_path(temp_dir: &str, project: &str, kind: &str, name: &str) -> (r: String)
    ensures
        r@ == inline_file_spec(temp_dir@, project@, kind@, name@),
{
    let mut dir = INLINE_DIR_PREFIX.to_string();
    dir.append(project);
    let a = path_join_exec(temp_dir, dir.as_str());
    let b = path_join_exec(a.as_str(), kind);
    path_join_exec(b.as_str(), name)
}

} // verus!
