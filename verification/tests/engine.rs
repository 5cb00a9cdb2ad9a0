use lynx::compose::engine::{
    build_binds, build_secret_binds, container_name, dockerignore_patterns, is_ignored, plan_container,
    resolve_network_mode, resolve_network_name,
};
use lynx::compose::types::{
    Command, ComposeFile, EnvVars, Labels, LoggingConfig, NetworkConfig, PortMapping, RestartPolicy,
    ScalarValue, SecretConfig, Service, ServiceNetworks, UlimitConfig, VolumeMount, VolumeType,
};
use lynx::error::ComposeError;

#[test]
fn container_names() {
    let svc = Service::default();
    assert_eq!(container_name("shop", "web", &svc), "shop-web");
    let named = Service { container_name: Some("custom".into()), ..Default::default() };
    assert_eq!(container_name("shop", "web", &named), "custom");
}

fn file_with_network() -> ComposeFile {
    ComposeFile {
        networks: vec![
            ("front".into(), Some(NetworkConfig { name: Some("shop_front".into()), ..Default::default() })),
            ("back".into(), None),
        ],
        secrets: vec![
            ("db".into(), SecretConfig { file: Some("./db.txt".into()), external: None, name: None }),
            ("ext".into(), SecretConfig { file: None, external: Some(true), name: None }),
        ],
        ..Default::default()
    }
}

#[test]
fn network_resolution() {
    let f = file_with_network();
    assert_eq!(resolve_network_name("front", &f), "shop_front");
    assert_eq!(resolve_network_name("back", &f), "back");
    assert_eq!(resolve_network_name("other", &f), "other");
    let svc = Service { networks: ServiceNetworks::List(vec!["front".into(), "back".into()]), ..Default::default() };
    assert_eq!(resolve_network_mode(&svc, &f), (None, Some("shop_front".to_string())));
    let host = Service { network_mode: Some("host".into()), networks: svc.networks.clone(), ..Default::default() };
    assert_eq!(resolve_network_mode(&host, &f), (Some("host".to_string()), None));
    assert_eq!(resolve_network_mode(&Service::default(), &f), (None, None));
}

#[test]
fn engine_binds_and_secret_mounts() {
    let svc = Service {
        volumes: vec![
            VolumeMount::Short("data:/data".into()),
            VolumeMount::Long {
                volume_type: VolumeType::Bind,
                source: Some("./conf".into()),
                target: "/etc/conf".into(),
                read_only: Some(true),
            },
        ],
        secrets: vec!["db".into(), "ext".into(), "missing".into()],
        ..Default::default()
    };
    assert_eq!(build_binds(&svc), vec!["data:/data".to_string(), "./conf:/etc/conf:ro".to_string()]);
    assert_eq!(build_secret_binds(&svc, &file_with_network()), vec!["./db.txt:/run/secrets/db:ro".to_string()]);
}

#[test]
fn dockerignore_rules() {
    let patterns = dockerignore_patterns("# build output\n target/ \n\nnode_modules\n.git\n");
    assert_eq!(patterns, vec!["target/".to_string(), "node_modules".to_string(), ".git".to_string()]);
    assert!(is_ignored("target/debug/app", &patterns));
    assert!(is_ignored("node_modules", &patterns));
    assert!(is_ignored("node_modules/x/index.js", &patterns));
    assert!(!is_ignored("node_modules_old/a", &patterns));
    assert!(!is_ignored("src/main.rs", &patterns));
}

#[test]
fn plan_requires_an_image() {
    let svc = Service::default();
    match plan_container("shop", "web", &svc, &ComposeFile::default(), vec![]) {
        Err(ComposeError::NoImageOrBuild(n)) => assert_eq!(n, "web"),
        other => panic!("unexpected result: {:?}", other.map(|_| ())),
    }
}

#[test]
fn plan_rejects_bad_ports() {
    let svc = Service { image: Some("nginx".into()), ports: vec![PortMapping::Short("80-70".into())], ..Default::default() };
    assert!(matches!(
        plan_container("shop", "web", &svc, &ComposeFile::default(), vec![]),
        Err(ComposeError::InvalidPort(_))
    ));
}

#[test]
fn plan_collects_container_settings() {
    let svc = Service {
        image: Some("nginx:alpine".into()),
        command: Some(Command::Exec(vec!["nginx".into(), "-g".into(), "daemon off;".into()])),
        ports: vec![PortMapping::Short("8080:80".into())],
        environment: EnvVars::Mapping(vec![("MODE".into(), Some(ScalarValue::String("prod".into())))]),
        volumes: vec![VolumeMount::Short("html:/usr/share/nginx/html".into())],
        secrets: vec!["db".into()],
        labels: Labels::Mapping(vec![("team".into(), "web".into())]),
        restart: Some(RestartPolicy::Always),
        cap_add: vec!["NET_ADMIN".into()],
        ulimits: vec![("nofile".into(), UlimitConfig::Pair { soft: 1024, hard: 65536 })],
        logging: Some(LoggingConfig { driver: Some("json-file".into()), options: vec![] }),
        networks: ServiceNetworks::List(vec!["front".into()]),
        ..Default::default()
    };
    let plan = plan_container(
        "shop",
        "web",
        &svc,
        &file_with_network(),
        vec![("MODE".into(), "dev".into()), ("EXTRA".into(), "1".into())],
    )
    .unwrap();
    assert_eq!(plan.image, "nginx:alpine");
    let mut env = plan.env.clone().unwrap();
    env.sort();
    assert_eq!(env, vec!["EXTRA=1".to_string(), "MODE=prod".to_string()]);
    assert_eq!(plan.cmd, Some(vec!["nginx".to_string(), "-g".to_string(), "daemon off;".to_string()]));
    let mut labels = plan.labels.clone();
    labels.sort();
    assert_eq!(
        labels,
        vec![
            ("lynx.compose.project".to_string(), "shop".to_string()),
            ("lynx.compose.service".to_string(), "web".to_string()),
            ("team".to_string(), "web".to_string()),
        ]
    );
    assert_eq!(plan.exposed_ports, Some(vec!["80/tcp".to_string()]));
    let bindings = plan.port_bindings.clone().unwrap();
    assert_eq!(bindings[0].0, "80/tcp");
    assert_eq!(bindings[0].1[0].host_port.as_deref(), Some("8080"));
    assert_eq!(
        plan.binds,
        Some(vec!["html:/usr/share/nginx/html".to_string(), "./db.txt:/run/secrets/db:ro".to_string()])
    );
    assert_eq!(plan.first_network.as_deref(), Some("shop_front"));
    assert_eq!(plan.network_mode, None);
    assert_eq!(plan.restart_policy, Some(RestartPolicy::Always));
    assert_eq!(plan.cap_add, Some(vec!["NET_ADMIN".to_string()]));
    assert_eq!(plan.cap_drop, None);
    let u = &plan.ulimits.as_ref().unwrap()[0];
    assert_eq!((u.name.as_str(), u.soft, u.hard), ("nofile", 1024, 65536));
    let log = plan.log_config.as_ref().unwrap();
    assert_eq!(log.typ.as_deref(), Some("json-file"));
    assert!(log.config.is_none());
    assert_eq!(plan.sysctls, None);
    assert_eq!(plan.dns, None);
}
