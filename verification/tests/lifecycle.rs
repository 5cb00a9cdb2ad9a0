use lynx::compose::lifecycle::{
    exec_target, health_poll, image_build, images_to_pull, networks_to_create, plan_down, plan_up, ps_header,
    ps_label, ps_row, service_targets, volumes_to_create, HealthPoll, PsPort,
};
use lynx::compose::types::{
    BuildConfig, Command, ComposeFile, DependsOn, DependsOnCondition, HealthCheck, NetworkConfig,
    Service, ServiceCondition, ServiceNetworks, VolumeConfig,
};
use lynx::error::ComposeError;

fn stack() -> ComposeFile {
    let db = Service {
        image: Some("postgres".into()),
        healthcheck: Some(HealthCheck {
            test: Command::Exec(vec!["CMD".into(), "pg_isready".into()]),
            interval: None,
            timeout: None,
            retries: Some(5),
            start_period: None,
            disable: None,
        }),
        ..Default::default()
    };
    let cache = Service { image: Some("redis".into()), container_name: Some("shared-cache".into()), ..Default::default() };
    let app = Service {
        build: Some(BuildConfig::Context(".".into())),
        depends_on: DependsOn::Mapping(vec![
            ("db".into(), DependsOnCondition { condition: ServiceCondition::ServiceHealthy }),
            ("cache".into(), DependsOnCondition { condition: ServiceCondition::ServiceStarted }),
        ]),
        networks: ServiceNetworks::List(vec!["front".into(), "back".into(), "ext".into()]),
        ..Default::default()
    };
    ComposeFile {
        services: vec![("app".into(), app), ("db".into(), db), ("cache".into(), cache)],
        networks: vec![
            ("front".into(), None),
            ("back".into(), Some(NetworkConfig { name: Some("shop_back".into()), driver: Some("macvlan".into()), ..Default::default() })),
            ("ext".into(), Some(NetworkConfig { external: Some(true), ..Default::default() })),
        ],
        volumes: vec![
            ("data".into(), None),
            ("named".into(), Some(VolumeConfig { name: Some("shop_named".into()), ..Default::default() })),
            ("outside".into(), Some(VolumeConfig { external: Some(true), ..Default::default() })),
        ],
        ..Default::default()
    }
}

#[test]
fn created_networks_and_volumes() {
    let f = stack();
    let nets: Vec<(String, String)> = networks_to_create(&f).into_iter().map(|n| (n.name, n.driver)).collect();
    assert_eq!(
        nets,
        vec![("front".to_string(), "bridge".to_string()), ("shop_back".to_string(), "macvlan".to_string())]
    );
    assert_eq!(volumes_to_create(&f), vec!["data".to_string(), "shop_named".to_string()]);
}

#[test]
fn up_waits_for_healthy_dependencies() {
    let f = stack();
    let steps = plan_up("shop", &f).unwrap();
    let order: Vec<&str> = steps.iter().map(|s| s.service.as_str()).collect();
    let pos = |n: &str| order.iter().position(|x| *x == n).unwrap();
    assert!(pos("db") < pos("app"));
    assert!(pos("cache") < pos("app"));
    let app = &steps[pos("app")];
    assert_eq!(app.container, "shop-app");
    assert!(app.build);
    assert_eq!(app.wait_for.len(), 1);
    assert_eq!(app.wait_for[0].container, "shop-db");
    assert_eq!(app.wait_for[0].retries, 5);
    assert_eq!(app.extra_networks, vec!["shop_back".to_string(), "ext".to_string()]);
    let cache = &steps[pos("cache")];
    assert_eq!(cache.container, "shared-cache");
    assert!(!cache.build);
    assert!(cache.wait_for.is_empty());
}

#[test]
fn up_fails_like_ordering() {
    let mut f = stack();
    f.services[2].1.depends_on = DependsOn::List(vec!["app".into()]);
    assert!(matches!(plan_up("shop", &f), Err(ComposeError::CircularDependency(_))));
    assert!(matches!(plan_down("shop", &f), Err(ComposeError::CircularDependency(_))));
}

#[test]
fn down_reverses_start_order() {
    let f = stack();
    let down = plan_down("shop", &f).unwrap();
    let up: Vec<String> = plan_up("shop", &f).unwrap().into_iter().map(|s| s.container).collect();
    let mut reversed = up.clone();
    reversed.reverse();
    assert_eq!(down, reversed);
}

#[test]
fn restart_and_exec_targets() {
    let f = stack();
    assert_eq!(service_targets("shop", &f, Some("db")).unwrap(), vec!["shop-db".to_string()]);
    assert_eq!(
        service_targets("shop", &f, None).unwrap(),
        vec!["shop-app".to_string(), "shop-db".to_string(), "shared-cache".to_string()]
    );
    assert!(matches!(service_targets("shop", &f, Some("nope")), Err(ComposeError::ServiceNotFound(n)) if n == "nope"));
    assert_eq!(exec_target("shop", &f, "cache").unwrap(), "shared-cache");
    assert!(matches!(exec_target("shop", &f, "web"), Err(ComposeError::ServiceNotFound(n)) if n == "web"));
    assert_eq!(images_to_pull(&f), vec!["postgres".to_string(), "redis".to_string()]);
}

#[test]
fn health_polling() {
    assert_eq!(health_poll(0, 0, false), HealthPoll::TimedOut);
    assert_eq!(health_poll(0, 3, false), HealthPoll::PollAgain);
    assert_eq!(health_poll(2, 3, true), HealthPoll::Ready);
    assert_eq!(health_poll(3, 3, false), HealthPoll::TimedOut);
}

#[test]
fn ps_table() {
    assert_eq!(ps_label("shop"), "lynx.compose.project=shop");
    assert_eq!(ps_header(), format!("{:<40} {:<30} {:<20}", "NAME", "IMAGE", "STATUS"));
    let row = ps_row(
        &vec!["/shop-web".to_string()],
        Some("nginx"),
        Some("Up 2 minutes"),
        &vec![
            PsPort { ip: Some("0.0.0.0".into()), public_port: Some(8080), private_port: 80 },
            PsPort { ip: None, public_port: None, private_port: 443 },
        ],
    );
    assert_eq!(
        row,
        format!("{:<40} {:<30} {:<20} {}", "shop-web", "nginx", "Up 2 minutes", "0.0.0.0:8080->80, :0->443")
    );
    let long = "x".repeat(45);
    assert_eq!(ps_row(&vec![long.clone()], None, None, &vec![]), format!("{} {:<30} {:<20} ", long, "", ""));
}

#[test]
fn build_plans() {
    let file = stack();
    let app = &file.services.iter().find(|(n, _)| n == "app").unwrap().1;
    let b = image_build("app", app).unwrap();
    assert_eq!((b.context.as_str(), b.dockerfile.as_str(), b.tag.as_str()), (".", "Dockerfile", "app:latest"));
    let db = &file.services.iter().find(|(n, _)| n == "db").unwrap().1;
    assert!(image_build("db", db).is_none());
    let custom = Service {
        image: Some("registry/app:2".into()),
        build: Some(BuildConfig::Config {
            context: "./web".into(),
            dockerfile: Some("Containerfile".into()),
            args: Default::default(),
            target: None,
        }),
        ..Default::default()
    };
    let b = image_build("web", &custom).unwrap();
    assert_eq!((b.context.as_str(), b.dockerfile.as_str(), b.tag.as_str()), ("./web", "Containerfile", "registry/app:2"));
}
