use lynx::error::ComposeError;
use lynx::project::types::{
    Command, ComposeFile, DependsOn, DependsOnCondition, EnvVars, ExtendsConfig, HealthCheck,
    Labels, RestartPolicy, ScalarValue, Service, ServiceCondition, ServiceNetworks, StringOrList, Sysctls,
};
use lynx::project::{merge_compose_file, merge_service, resolve_extends_same_file, resolve_order};

fn image(name: &str) -> Service {
    Service { image: Some(name.to_string()), ..Default::default() }
}

fn extending(base: &str) -> Service {
    Service { extends: Some(ExtendsConfig::Service(base.to_string())), ..Default::default() }
}

fn env_value(env: &EnvVars, key: &str) -> Option<Option<String>> {
    env.to_map().into_iter().find(|(k, _)| k == key).map(|(_, v)| v)
}

#[test]
fn merge_service_override_wins_and_lists_fall_back() {
    let base = Service {
        image: Some("base:1".into()),
        user: Some("root".into()),
        cap_add: vec!["NET_ADMIN".into()],
        dns: StringOrList::Single("1.1.1.1".into()),
        ..Default::default()
    };
    let over = Service {
        image: Some("app:2".into()),
        cap_add: vec![],
        dns: StringOrList::Empty,
        ..Default::default()
    };
    let m = merge_service(base, over);
    assert_eq!(m.image.as_deref(), Some("app:2"));
    assert_eq!(m.user.as_deref(), Some("root"));
    assert_eq!(m.cap_add, vec!["NET_ADMIN".to_string()]);
    assert_eq!(m.dns.to_list(), vec!["1.1.1.1".to_string()]);
}

#[test]
fn merge_service_environment_replaced() {
    let base = Service {
        environment: EnvVars::Mapping(vec![
            ("A".into(), Some(ScalarValue::String("1".into()))),
            ("B".into(), Some(ScalarValue::String("2".into()))),
        ]),
        ..Default::default()
    };
    let over = Service {
        environment: EnvVars::List(vec!["B=20".into(), "C=30".into()]),
        ..Default::default()
    };
    let m = merge_service(base.clone(), over);
    assert_eq!(env_value(&m.environment, "A"), None);
    assert_eq!(env_value(&m.environment, "B"), Some(Some("20".into())));
    assert_eq!(env_value(&m.environment, "C"), Some(Some("30".into())));
    assert_eq!(m.environment.to_map().len(), 2);
    let kept = merge_service(base, Service::default());
    assert_eq!(env_value(&kept.environment, "A"), Some(Some("1".into())));
    assert_eq!(kept.environment.to_map().len(), 2);
}

#[test]
fn merge_service_maps_replaced() {
    let base = Service {
        labels: Labels::List(vec!["a=1".into(), "b=2".into()]),
        storage_opt: vec![("size".into(), "10G".into())],
        ..Default::default()
    };
    let over = Service {
        labels: Labels::Mapping(vec![("b".into(), "3".into())]),
        storage_opt: vec![("dm.basesize".into(), "20G".into())],
        ..Default::default()
    };
    let m = merge_service(base.clone(), over);
    assert_eq!(m.labels.to_map(), vec![("b".to_string(), "3".to_string())]);
    assert_eq!(m.storage_opt, vec![("dm.basesize".to_string(), "20G".to_string())]);
    let kept = merge_service(base, Service::default());
    let mut labels = kept.labels.to_map();
    labels.sort();
    assert_eq!(labels, vec![("a".to_string(), "1".to_string()), ("b".to_string(), "2".to_string())]);
    assert_eq!(kept.storage_opt, vec![("size".to_string(), "10G".to_string())]);
}

#[test]
fn extends_copies_base_options() {
    let mut web = extending("base");
    web.user = Some("app".into());
    let mut file = ComposeFile {
        services: vec![("web".into(), web), ("base".into(), image("nginx"))],
        ..Default::default()
    };
    resolve_extends_same_file(&mut file).unwrap();
    let web = &file.services[0].1;
    assert_eq!(file.services[0].0, "web");
    assert_eq!(web.image.as_deref(), Some("nginx"));
    assert_eq!(web.user.as_deref(), Some("app"));
    assert!(web.extends.is_none());
}

#[test]
fn extends_follows_chains() {
    let mut file = ComposeFile {
        services: vec![
            ("c".into(), extending("b")),
            ("b".into(), extending("a")),
            ("a".into(), image("alpine")),
        ],
        ..Default::default()
    };
    resolve_extends_same_file(&mut file).unwrap();
    for (_, s) in &file.services {
        assert_eq!(s.image.as_deref(), Some("alpine"));
        assert!(s.extends.is_none());
    }
}

fn extends_error(services: Vec<(String, Service)>) -> String {
    let mut file = ComposeFile { services, ..Default::default() };
    match resolve_extends_same_file(&mut file) {
        Err(ComposeError::Extends(m)) => m,
        other => panic!("unexpected result: {:?}", other),
    }
}

#[test]
fn extends_errors_name_the_service() {
    assert_eq!(extends_error(vec![("a".into(), extending("a"))]), "service 'a' extends itself");
    assert_eq!(
        extends_error(vec![("a".into(), extending("ghost"))]),
        "service 'a' extends unknown service 'ghost'"
    );
    assert_eq!(
        extends_error(vec![("a".into(), extending("b")), ("b".into(), extending("a"))]),
        "circular extends at a"
    );
    let long = Service {
        extends: Some(ExtendsConfig::Long { service: "b".into(), file: Some("other.yml".into()) }),
        ..Default::default()
    };
    assert_eq!(
        extends_error(vec![("a".into(), long)]),
        "service 'a' uses 'extends.file' but parser was given a string, not a path"
    );
}

#[test]
fn included_entries_do_not_override_parent() {
    let mut parent = ComposeFile {
        services: vec![("web".into(), image("parent"))],
        ..Default::default()
    };
    let included = ComposeFile {
        services: vec![("web".into(), image("child")), ("db".into(), image("postgres"))],
        ..Default::default()
    };
    merge_compose_file(&mut parent, included);
    assert_eq!(parent.services.len(), 2);
    assert_eq!(parent.services[0].0, "web");
    assert_eq!(parent.services[0].1.image.as_deref(), Some("parent"));
    assert_eq!(parent.services[1].0, "db");
}

#[test]
fn optional_missing_dependency_is_skipped() {
    let app = Service {
        depends_on: DependsOn::Mapping(vec![
            (
                "cache".into(),
                DependsOnCondition { condition: ServiceCondition::ServiceStarted, restart: None, required: Some(false) },
            ),
            (
                "db".into(),
                DependsOnCondition { condition: ServiceCondition::ServiceHealthy, restart: None, required: None },
            ),
        ]),
        ..Default::default()
    };
    let file = ComposeFile {
        services: vec![("app".into(), app), ("db".into(), image("postgres"))],
        ..Default::default()
    };
    assert_eq!(resolve_order(&file).unwrap(), vec!["db".to_string(), "app".to_string()]);
}

#[test]
fn required_missing_dependency_fails() {
    let file = ComposeFile {
        services: vec![("app".into(), Service { depends_on: DependsOn::List(vec!["db".into()]), ..Default::default() })],
        ..Default::default()
    };
    assert!(matches!(resolve_order(&file), Err(ComposeError::ServiceNotFound(d)) if d == "db"));
}

#[test]
fn restart_policy_values() {
    assert_eq!(RestartPolicy::parse("no"), Ok(RestartPolicy::No));
    assert_eq!(RestartPolicy::parse("always"), Ok(RestartPolicy::Always));
    assert_eq!(RestartPolicy::parse("unless-stopped"), Ok(RestartPolicy::UnlessStopped));
    assert_eq!(RestartPolicy::parse("on-failure"), Ok(RestartPolicy::OnFailure { max_attempts: None }));
    assert_eq!(RestartPolicy::parse("on-failure:5"), Ok(RestartPolicy::OnFailure { max_attempts: Some(5) }));
}

#[test]
fn restart_policy_errors() {
    assert_eq!(RestartPolicy::parse("sometimes"), Err("invalid restart policy: sometimes".to_string()));
    assert_eq!(RestartPolicy::parse("on-failure:x"), Err("invalid digit found in string".to_string()));
    assert_eq!(RestartPolicy::parse("on-failure:"), Err("cannot parse integer from empty string".to_string()));
    assert_eq!(
        RestartPolicy::parse("on-failure:99999999999"),
        Err("number too large to fit in target type".to_string())
    );
}

#[test]
fn healthcheck_disabled_forms() {
    let none = HealthCheck { test: Some(Command::Exec(vec!["none".into()])), ..Default::default() };
    assert!(none.is_disabled());
    let flag = HealthCheck { disable: Some(true), ..Default::default() };
    assert!(flag.is_disabled());
    let active = HealthCheck { test: Some(Command::Exec(vec!["CMD".into(), "true".into()])), ..Default::default() };
    assert!(!active.is_disabled());
}

#[test]
fn merge_service_empty_collections_keep_base() {
    let base = Service {
        networks: ServiceNetworks::List(vec!["front".into()]),
        depends_on: DependsOn::List(vec!["db".into()]),
        sysctls: Sysctls::Mapping(vec![("net.core.somaxconn".into(), "1024".into())]),
        ..Default::default()
    };
    let over = Service {
        networks: ServiceNetworks::List(vec![]),
        depends_on: DependsOn::Mapping(vec![]),
        sysctls: Sysctls::List(vec![]),
        ..Default::default()
    };
    let m = merge_service(base, over);
    assert!(matches!(&m.networks, ServiceNetworks::List(v) if v == &vec!["front".to_string()]));
    assert!(matches!(&m.depends_on, DependsOn::List(v) if v == &vec!["db".to_string()]));
    assert!(matches!(&m.sysctls, Sysctls::Mapping(v) if v.len() == 1));
    let replaced = merge_service(
        Service { networks: ServiceNetworks::List(vec!["front".into()]), ..Default::default() },
        Service { networks: ServiceNetworks::List(vec!["back".into()]), ..Default::default() },
    );
    assert!(matches!(&replaced.networks, ServiceNetworks::List(v) if v == &vec!["back".to_string()]));
}
