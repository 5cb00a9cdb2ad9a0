use lynx::compose::types::PortMapping;
use lynx::error::ComposeError;
use lynx::ports::{parse_ports, to_bollard};

fn short(s: &str) -> PortMapping {
    PortMapping::Short(s.to_string())
}

#[test]
fn container_only() {
    let ports = parse_ports(&[short("80")]).unwrap();
    assert_eq!(ports.len(), 1);
    assert_eq!(ports[0].container_port, 80);
    assert_eq!(ports[0].protocol, "tcp");
    assert!(ports[0].host_port.is_none());
}

#[test]
fn host_colon_container() {
    let ports = parse_ports(&[short("8080:80")]).unwrap();
    assert_eq!(ports[0].container_port, 80);
    assert_eq!(ports[0].host_port, Some(8080));
}

#[test]
fn ip_host_container() {
    let ports = parse_ports(&[short("127.0.0.1:8080:80")]).unwrap();
    assert_eq!(ports[0].container_port, 80);
    assert_eq!(ports[0].host_port, Some(8080));
    assert_eq!(ports[0].host_ip, "127.0.0.1");
}

#[test]
fn udp_protocol() {
    let ports = parse_ports(&[short("514:514/udp")]).unwrap();
    assert_eq!(ports[0].protocol, "udp");
}

#[test]
fn range_expansion() {
    let ports = parse_ports(&[short("8000-8002:8000-8002")]).unwrap();
    assert_eq!(ports.len(), 3);
    assert_eq!(ports[0].container_port, 8000);
    assert_eq!(ports[1].container_port, 8001);
    assert_eq!(ports[2].container_port, 8002);
}

#[test]
fn container_only_udp() {
    let ports = parse_ports(&[short("53/udp")]).unwrap();
    assert_eq!(ports[0].container_port, 53);
    assert_eq!(ports[0].protocol, "udp");
    assert!(ports[0].host_port.is_none());
}

#[test]
fn to_bollard_produces_correct_keys() {
    let ports = parse_ports(&[short("8080:80")]).unwrap();
    let (bindings, exposed) = to_bollard(&ports);
    assert!(bindings.iter().any(|(k, _)| k == "80/tcp"));
    assert!(exposed.iter().any(|k| k == "80/tcp"));
    let b = &bindings.iter().find(|(k, _)| k == "80/tcp").unwrap().1;
    assert_eq!(b[0].host_port.as_deref(), Some("8080"));
}

#[test]
fn invalid_port_is_rejected() {
    let r = parse_ports(&[short("http")]);
    assert!(matches!(r, Err(ComposeError::InvalidPort(_))));
    let r = parse_ports(&[short("70000")]);
    assert!(matches!(r, Err(ComposeError::InvalidPort(_))));
}

#[test]
fn host_range_follows_container_range() {
    let ports = parse_ports(&[short("9000-9001:8000-8001")]).unwrap();
    assert_eq!(ports.len(), 2);
    assert_eq!(ports[0].host_port, Some(9000));
    assert_eq!(ports[1].host_port, Some(9001));
    assert_eq!(ports[1].container_port, 8001);
}

#[test]
fn same_container_port_groups_bindings() {
    let ports = parse_ports(&[short("8080:80"), short("127.0.0.1:9090:80")]).unwrap();
    let (bindings, exposed) = to_bollard(&ports);
    assert_eq!(bindings.len(), 1);
    assert_eq!(exposed, vec!["80/tcp".to_string()]);
    assert_eq!(bindings[0].1.len(), 2);
    assert_eq!(bindings[0].1[0].host_ip, "0.0.0.0");
    assert_eq!(bindings[0].1[1].host_ip, "127.0.0.1");
    assert_eq!(bindings[0].1[1].host_port.as_deref(), Some("9090"));
}

#[test]
fn ports_of_concatenated_lists() {
    let a = vec![short("8080:80"), short("53/udp")];
    let b = vec![short("9000-9001:9000-9001")];
    let ab: Vec<PortMapping> = a.iter().cloned().chain(b.iter().cloned()).collect();
    let whole = parse_ports(&ab).unwrap();
    let mut parts = parse_ports(&a).unwrap();
    parts.extend(parse_ports(&b).unwrap());
    let key = |v: &Vec<lynx::ports::ParsedPort>| -> Vec<(u16, String, String, Option<u16>)> {
        v.iter().map(|p| (p.container_port, p.protocol.clone(), p.host_ip.clone(), p.host_port)).collect()
    };
    assert_eq!(key(&whole), key(&parts));
    assert_eq!(whole.len(), 4);
    let bad = vec![short("8080:80"), short("x:y"), short("zz")];
    let first_err = parse_ports(&[short("x:y")]);
    assert!(matches!((parse_ports(&bad), first_err), (Err(ComposeError::InvalidPort(m1)), Err(ComposeError::InvalidPort(m2))) if m1 == m2));
}
