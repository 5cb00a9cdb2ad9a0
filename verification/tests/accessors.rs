use lynx::compose::types::{Command, StringOrU16};
use lynx::project::types::{
    ComposeFile, ConfigConfig, DependsOn, DependsOnCondition, ServiceCondition, ServiceConfigRef,
    ServiceNetworkConfig, ServiceNetworks, Service,
};
use lynx::project::volume::{inline_file_path, plan_config_mounts, read_only_bind, MountSource};

#[test]
fn command_argument_lists() {
    let shell = Command::Shell("echo hi".into());
    assert_eq!(shell.to_argv(), vec!["echo hi".to_string()]);
    assert_eq!(shell.to_exec(), vec!["sh".to_string(), "-c".to_string(), "echo hi".to_string()]);
    let exec = Command::Exec(vec!["ls".into(), "-l".into()]);
    assert_eq!(exec.to_argv(), vec!["ls".to_string(), "-l".to_string()]);
}

#[test]
fn published_port_text() {
    assert_eq!(StringOrU16::Number(8080).as_str_val(), "8080");
    for n in [0u16, 7, 10, 8080, 65535] {
        assert_eq!(StringOrU16::Number(n).as_str_val().parse::<u16>(), Ok(n));
    }
    assert_eq!(StringOrU16::String("8000-8002".into()).as_str_val(), "8000-8002");
}

#[test]
fn network_config_lookup() {
    let nets = ServiceNetworks::Mapping(vec![
        ("front".into(), Some(ServiceNetworkConfig { aliases: Some(vec!["web".into()]), ..Default::default() })),
        ("back".into(), None),
    ]);
    assert_eq!(nets.config_for("front").map(|c| c.aliases.clone()), Some(Some(vec!["web".to_string()])));
    assert!(nets.config_for("back").is_none());
    assert!(nets.config_for("other").is_none());
    assert_eq!(nets.names(), vec!["front".to_string(), "back".to_string()]);
}

#[test]
fn dependency_flags() {
    let deps = DependsOn::Mapping(vec![(
        "db".into(),
        DependsOnCondition { condition: ServiceCondition::ServiceHealthy, restart: Some(true), required: Some(false) },
    )]);
    assert!(deps.restart_for("db"));
    assert!(!deps.required_for("db"));
    assert!(!deps.restart_for("cache"));
    assert!(deps.required_for("cache"));
    assert_eq!(deps.condition_for("db"), ServiceCondition::ServiceHealthy);
    assert_eq!(deps.condition_for("cache"), ServiceCondition::ServiceStarted);
}

#[test]
fn config_mounts() {
    let svc = Service {
        configs: vec![
            ServiceConfigRef::Short("nginx_conf".into()),
            ServiceConfigRef::Long { source: "motd".into(), target: Some("/etc/motd".into()), uid: None, gid: None, mode: None },
        ],
        ..Default::default()
    };
    let file = ComposeFile {
        configs: vec![
            ("nginx_conf".into(), ConfigConfig { file: Some("./nginx.conf".into()), ..Default::default() }),
            ("motd".into(), ConfigConfig { content: Some("hello".into()), ..Default::default() }),
        ],
        ..Default::default()
    };
    let mounts = plan_config_mounts(&svc, &file);
    assert_eq!(mounts.len(), 2);
    assert_eq!(mounts[0].target, "/nginx_conf");
    assert_eq!(mounts[0].source, MountSource::HostFile("./nginx.conf".into()));
    assert_eq!(mounts[1].target, "/etc/motd");
    assert_eq!(mounts[1].source, MountSource::Inline("hello".into()));
    assert_eq!(read_only_bind("/tmp/x", "/etc/motd"), "/tmp/x:/etc/motd:ro");
}

#[test]
fn inline_content_files() {
    assert_eq!(inline_file_path("/tmp", "shop", "secrets", "db"), "/tmp/lynx-compose-shop/secrets/db");
    assert_eq!(inline_file_path("/tmp/", "shop", "configs", "motd"), "/tmp/lynx-compose-shop/configs/motd");
}
