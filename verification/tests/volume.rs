use lynx::project::types::{
    BindOptions, ComposeFile, SecretConfig, Service, ServiceSecretRef, VolumeMount, VolumeOptions,
    VolumeType,
};
use lynx::project::volume::{
    build_binds, host_dirs_to_create, path_join_exec, plan_secret_mounts, MountSource,
};

fn svc_with_volumes(vols: Vec<VolumeMount>) -> Service {
    Service { volumes: vols, ..Default::default() }
}

fn bind(source: &str, target: &str, read_only: Option<bool>, opts: Option<BindOptions>) -> VolumeMount {
    VolumeMount::Long {
        volume_type: VolumeType::Bind,
        source: Some(source.into()),
        target: target.into(),
        read_only,
        bind: opts,
        volume: None,
        tmpfs: None,
        consistency: None,
    }
}

#[test]
fn short_form_passthrough() {
    let svc = svc_with_volumes(vec![VolumeMount::Short("./data:/app/data".into())]);
    let binds = build_binds(&svc);
    assert_eq!(binds, vec!["./data:/app/data"]);
}

#[test]
fn long_form_bind_read_only() {
    let svc = svc_with_volumes(vec![bind("/host/path", "/container/path", Some(true), None)]);
    let binds = build_binds(&svc);
    assert_eq!(binds.len(), 1);
    assert!(binds[0].contains("ro"));
    assert!(binds[0].contains("/host/path:/container/path"));
}

#[test]
fn long_form_bind_with_propagation() {
    let svc = svc_with_volumes(vec![bind(
        "/host",
        "/cont",
        Some(false),
        Some(BindOptions { propagation: Some("rshared".into()), create_host_path: None, selinux: None }),
    )]);
    let binds = build_binds(&svc);
    assert!(binds[0].contains("rshared"));
}

#[test]
fn long_form_volume_nocopy() {
    let svc = svc_with_volumes(vec![VolumeMount::Long {
        volume_type: VolumeType::Volume,
        source: Some("myvolume".into()),
        target: "/data".into(),
        read_only: None,
        bind: None,
        volume: Some(VolumeOptions { nocopy: Some(true), ..Default::default() }),
        tmpfs: None,
        consistency: None,
    }]);
    let binds = build_binds(&svc);
    assert!(binds[0].contains("nocopy"));
}

#[test]
fn tmpfs_type_excluded_from_binds() {
    let svc = svc_with_volumes(vec![VolumeMount::Long {
        volume_type: VolumeType::Tmpfs,
        source: None,
        target: "/run".into(),
        read_only: None,
        bind: None,
        volume: None,
        tmpfs: None,
        consistency: None,
    }]);
    let binds = build_binds(&svc);
    assert!(binds.is_empty());
}

#[test]
fn long_form_bind_exact_text() {
    let svc = svc_with_volumes(vec![bind(
        "/srv",
        "/data",
        None,
        Some(BindOptions { propagation: Some("rprivate".into()), create_host_path: None, selinux: Some("z".into()) }),
    )]);
    assert_eq!(build_binds(&svc), vec!["/srv:/data:rw,rprivate,z".to_string()]);
}

#[test]
fn path_join_cases() {
    assert_eq!(path_join_exec("/base", "data"), "/base/data");
    assert_eq!(path_join_exec("/base/", "data"), "/base/data");
    assert_eq!(path_join_exec("/base", "/abs"), "/abs");
    assert_eq!(path_join_exec("", "rel"), "rel");
}

#[test]
fn host_dirs_only_for_create_host_path() {
    let svc = svc_with_volumes(vec![
        bind("data", "/a", None, Some(BindOptions { create_host_path: Some(true), ..Default::default() })),
        bind("other", "/b", None, None),
        bind("/abs", "/c", None, Some(BindOptions { create_host_path: Some(true), ..Default::default() })),
    ]);
    assert_eq!(host_dirs_to_create(&svc, "/base"), vec!["/base/data".to_string(), "/abs".to_string()]);
}

#[test]
fn secret_mounts_use_default_and_explicit_targets() {
    let svc = Service {
        secrets: vec![
            ServiceSecretRef::Short("db".into()),
            ServiceSecretRef::Long {
                source: "api".into(),
                target: Some("/etc/api".into()),
                uid: None,
                gid: None,
                mode: None,
            },
            ServiceSecretRef::Short("unknown".into()),
        ],
        ..Default::default()
    };
    let file = ComposeFile {
        secrets: vec![
            ("db".into(), SecretConfig { file: Some("./db.txt".into()), ..Default::default() }),
            ("api".into(), SecretConfig { environment: Some("API_KEY".into()), ..Default::default() }),
        ],
        ..Default::default()
    };
    let mounts = plan_secret_mounts(&svc, &file);
    assert_eq!(mounts.len(), 2);
    assert_eq!(mounts[0].name, "db");
    assert_eq!(mounts[0].target, "/run/secrets/db");
    assert_eq!(mounts[0].source, MountSource::HostFile("./db.txt".into()));
    assert_eq!(mounts[1].target, "/etc/api");
    assert_eq!(mounts[1].source, MountSource::FromEnv("API_KEY".into()));
}
