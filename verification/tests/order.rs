use lynx::compose::resolve_order;
use lynx::compose::types::{ComposeFile, DependsOn, Service};
use lynx::error::ComposeError;

fn svc(deps: &[&str]) -> Service {
    let depends_on = if deps.is_empty() {
        DependsOn::Empty
    } else {
        DependsOn::List(deps.iter().map(|d| d.to_string()).collect())
    };
    Service { image: Some("alpine".to_string()), depends_on, ..Default::default() }
}

fn file(services: &[(&str, &[&str])]) -> ComposeFile {
    ComposeFile {
        services: services.iter().map(|(n, d)| (n.to_string(), svc(d))).collect(),
        ..Default::default()
    }
}

fn pos(order: &[String], s: &str) -> usize {
    order.iter().position(|x| x == s).unwrap()
}

#[test]
fn order_no_deps() {
    let f = file(&[("a", &[]), ("b", &[]), ("c", &[])]);
    let order = resolve_order(&f).unwrap();
    assert_eq!(order.len(), 3);
}

#[test]
fn order_linear_chain() {
    let f = file(&[("c", &["b"]), ("b", &["a"]), ("a", &[])]);
    let order = resolve_order(&f).unwrap();
    assert!(pos(&order, "a") < pos(&order, "b"));
    assert!(pos(&order, "b") < pos(&order, "c"));
}

#[test]
fn order_diamond() {
    let f = file(&[
        ("app", &["api", "worker"]),
        ("api", &["db"]),
        ("worker", &["db"]),
        ("db", &[]),
    ]);
    let order = resolve_order(&f).unwrap();
    assert!(pos(&order, "db") < pos(&order, "api"));
    assert!(pos(&order, "db") < pos(&order, "worker"));
    assert!(pos(&order, "api") < pos(&order, "app"));
    assert!(pos(&order, "worker") < pos(&order, "app"));
}

#[test]
fn order_circular_dependency() {
    let f = file(&[("a", &["b"]), ("b", &["a"])]);
    let result = resolve_order(&f);
    assert!(result.is_err());
}

#[test]
fn order_missing_dependency() {
    let f = file(&[("a", &["nonexistent"])]);
    let result = resolve_order(&f);
    assert!(result.is_err());
}

#[test]
fn no_deps() {
    let f = file(&[("a", &[]), ("b", &[]), ("c", &[])]);
    assert_eq!(resolve_order(&f).unwrap().len(), 3);
}

#[test]
fn linear_chain() {
    let f = file(&[("c", &["b"]), ("b", &["a"]), ("a", &[])]);
    let order = resolve_order(&f).unwrap();
    assert!(pos(&order, "a") < pos(&order, "b"));
    assert!(pos(&order, "b") < pos(&order, "c"));
}

#[test]
fn diamond() {
    let f = file(&[
        ("app", &["api", "worker"]),
        ("api", &["db"]),
        ("worker", &["db"]),
        ("db", &[]),
    ]);
    let order = resolve_order(&f).unwrap();
    assert!(pos(&order, "db") < pos(&order, "api"));
    assert!(pos(&order, "db") < pos(&order, "worker"));
    assert!(pos(&order, "api") < pos(&order, "app"));
    assert!(pos(&order, "worker") < pos(&order, "app"));
}

#[test]
fn circular_dependency_error() {
    let f = file(&[("a", &["b"]), ("b", &["a"])]);
    assert!(matches!(resolve_order(&f), Err(ComposeError::CircularDependency(_))));
}

#[test]
fn missing_dependency_error() {
    let f = file(&[("a", &["nonexistent"])]);
    match resolve_order(&f) {
        Err(ComposeError::ServiceNotFound(name)) => assert_eq!(name, "nonexistent"),
        other => panic!("unexpected result: {:?}", other),
    }
}

#[test]
fn cycle_error_message() {
    let f = file(&[("a", &["a"])]);
    match resolve_order(&f) {
        Err(ComposeError::CircularDependency(m)) => assert_eq!(m, "cycle detected in depends_on"),
        other => panic!("unexpected result: {:?}", other),
    }
}
