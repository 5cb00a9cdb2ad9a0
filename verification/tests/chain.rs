use lynx::error::ComposeError;
use lynx::project::chain::{apply_extends_base, extends_step, take_service, ExtendsStep};
use lynx::project::types::{ComposeFile, ExtendsConfig, Service};

fn extending(base: &str, file: Option<&str>) -> Service {
    let extends = match file {
        Some(f) => ExtendsConfig::Long { service: base.to_string(), file: Some(f.to_string()) },
        None => ExtendsConfig::Service(base.to_string()),
    };
    Service { extends: Some(extends), ..Default::default() }
}

fn image(name: &str) -> Service {
    Service { image: Some(name.to_string()), ..Default::default() }
}

fn file() -> ComposeFile {
    ComposeFile {
        services: vec![
            ("web".into(), extending("base", Some("common.yml"))),
            ("worker".into(), extending("web", None)),
            ("loop".into(), extending("loop", None)),
            ("lost".into(), extending("ghost", None)),
            ("plain".into(), image("alpine")),
        ],
        ..Default::default()
    }
}

#[test]
fn steps_of_an_extends_chain() {
    let f = file();
    let mut visited = Vec::new();
    assert_eq!(
        extends_step(&f, "web", &mut visited, "/srv/app").unwrap(),
        ExtendsStep::FromFile { path: "/srv/app/common.yml".into(), service: "base".into() }
    );
    assert_eq!(visited, vec!["web".to_string()]);
    let mut visited = Vec::new();
    assert_eq!(extends_step(&f, "worker", &mut visited, "/srv/app").unwrap(), ExtendsStep::InFile { service: "web".into() });
    assert_eq!(extends_step(&f, "plain", &mut Vec::new(), "/srv").unwrap(), ExtendsStep::Done);
    assert_eq!(extends_step(&f, "absent", &mut Vec::new(), "/srv").unwrap(), ExtendsStep::Done);
}

#[test]
fn extends_step_errors() {
    let f = file();
    let mut visited = vec!["worker".to_string()];
    match extends_step(&f, "worker", &mut visited, "/srv") {
        Err(ComposeError::Extends(m)) => assert_eq!(m, "circular extends at worker"),
        other => panic!("unexpected: {:?}", other),
    }
    assert_eq!(visited.len(), 1);
    match extends_step(&f, "loop", &mut Vec::new(), "/srv") {
        Err(ComposeError::Extends(m)) => assert_eq!(m, "service 'loop' extends itself"),
        other => panic!("unexpected: {:?}", other),
    }
    match extends_step(&f, "lost", &mut Vec::new(), "/srv") {
        Err(ComposeError::Extends(m)) => assert_eq!(m, "service 'lost' extends unknown service 'ghost'"),
        other => panic!("unexpected: {:?}", other),
    }
}

#[test]
fn merging_a_resolved_base() {
    let mut f = file();
    let base = Service { image: Some("nginx".into()), user: Some("www".into()), ..Default::default() };
    apply_extends_base(&mut f, "worker", base);
    let worker = &f.services[1].1;
    assert_eq!(f.services[1].0, "worker");
    assert_eq!(worker.image.as_deref(), Some("nginx"));
    assert_eq!(worker.user.as_deref(), Some("www"));
    assert!(worker.extends.is_none());
    assert_eq!(f.services.len(), 5);
}

#[test]
fn taking_a_base_from_a_loaded_file() {
    let mut other = ComposeFile {
        services: vec![("a".into(), image("a")), ("base".into(), image("b")), ("c".into(), image("c"))],
        ..Default::default()
    };
    let b = take_service(&mut other, "base", "/srv/common.yml").unwrap();
    assert_eq!(b.image.as_deref(), Some("b"));
    let names: Vec<&str> = other.services.iter().map(|(n, _)| n.as_str()).collect();
    assert_eq!(names, vec!["a", "c"]);
    match take_service(&mut other, "base", "/srv/common.yml") {
        Err(ComposeError::Extends(m)) => assert_eq!(m, "service 'base' not found in /srv/common.yml"),
        other => panic!("unexpected: {:?}", other.map(|_| ())),
    }
}
