use lynx::agent::metrics::{counters_fit_exec, mem_mb, parse_kb, proc_stat_totals, split_whitespace_exec};
use lynx::agent::wireguard::{
    dashboard_peer, data_plane_interface, listen_port, peer_allowed_ips, plan_data_plane_setup,
    psk_set_args, wg_config_path,
};
use lynx::dashboard::keys::{decode_key32, secret_from_file, KeyError};
use lynx::dashboard::wg::{add_peer_args, peer_psk_args, remove_peer_args};

#[test]
fn whitespace_fields() {
    let chars: Vec<char> = "  MemTotal:\t 16318508 kB \n".chars().collect();
    let fields: Vec<String> = split_whitespace_exec(&chars).iter().map(|f| f.iter().collect()).collect();
    assert_eq!(fields, vec!["MemTotal:", "16318508", "kB"]);
    assert!(split_whitespace_exec(&[' ', '\n']).is_empty());
}

#[test]
fn meminfo_values() {
    assert_eq!(parse_kb("MemTotal:       16318508 kB"), 16318508);
    assert_eq!(parse_kb("MemTotal:"), 0);
    assert_eq!(parse_kb("MemTotal: lots kB"), 0);
    let content = "MemTotal:       2048000 kB\nMemFree:         100000 kB\nMemAvailable:    1024000 kB\n";
    assert_eq!(mem_mb(content), ((2048000 - 1024000) / 1024, 2048000 / 1024));
    assert_eq!(mem_mb("MemAvailable: 10 kB\n"), (0, 0));
    assert_eq!(mem_mb(""), (0, 0));
}

#[test]
fn proc_stat_counters() {
    let content = "cpu  10 20 30 400 5 6 7 0 0 0\ncpu0 1 2 3 4\n";
    assert_eq!(proc_stat_totals(content), Some((478, 400)));
    assert_eq!(proc_stat_totals("cpu 1 2 3\n"), None);
    assert_eq!(proc_stat_totals("cpu 1 x 2 3 4\n"), Some((10, 4)));
    assert_eq!(proc_stat_totals(""), None);
    assert!(counters_fit_exec(content));
    assert!(!counters_fit_exec("cpu 18446744073709551615 1 0 0\n"));
    assert!(counters_fit_exec("cpu 18446744073709551615 0 0 0\n"));
}

#[test]
fn data_plane_names_and_config() {
    assert_eq!(data_plane_interface("3f2a9c1e-77aa-4b2c-9d3e-0123456789ab"), "wg-lynx-dp-3f2a9c1e");
    assert_eq!(data_plane_interface("ab-cd"), "wg-lynx-dp-abcd");
    assert_eq!(wg_config_path("wg-lynx-dp-abcd"), "/etc/wireguard/wg-lynx-dp-abcd.conf");
    assert_eq!(peer_allowed_ips("10.200.0.5/30"), "10.200.0.0/30");
    assert_eq!(peer_allowed_ips("fd00::1/64"), "fd00::1/64");
    assert_eq!(listen_port(None), 51821);
    assert_eq!(listen_port(Some(51830)), 51830);
    assert_eq!(listen_port(Some(65536 + 7)), 7);
    let plan = plan_data_plane_setup(
        "12345678-9abc",
        "PRIV",
        "10.200.0.5/30",
        "PUB",
        "PSK",
        None,
        Some("203.0.113.9:51821"),
    );
    assert_eq!(plan.interface, "wg-lynx-dp-12345678");
    assert_eq!(plan.config_path, "/etc/wireguard/wg-lynx-dp-12345678.conf");
    assert_eq!(
        plan.config,
        "[Interface]\nPrivateKey = PRIV\nAddress = 10.200.0.5/30\nListenPort = 51821\n\n[Peer]\nPublicKey = PUB\nPresharedKey = PSK\nAllowedIPs = 10.200.0.0/30\nEndpoint = 203.0.113.9:51821\n"
    );
    let plan = plan_data_plane_setup("ab", "K", "10.1.2.3/30", "P", "S", Some(5000), None);
    assert!(plan.config.ends_with("AllowedIPs = 10.1.2.0/30\n"));
    assert!(plan.config.contains("ListenPort = 5000\n"));
}

#[test]
fn management_peer() {
    assert_eq!(dashboard_peer("  abcKEY=\nother=\n"), Some("abcKEY=".to_string()));
    assert_eq!(dashboard_peer(" \n "), None);
    assert_eq!(psk_set_args("abc="), vec!["set", "wg-lynx-agent", "peer", "abc=", "preshared-key", "/dev/stdin"]);
}

#[test]
fn dashboard_peer_commands() {
    assert_eq!(
        add_peer_args("K=", "10.100.0.2"),
        vec!["set", "wg-lynx-dash", "peer", "K=", "preshared-key", "/dev/stdin", "allowed-ips", "10.100.0.2/32"]
    );
    assert_eq!(peer_psk_args("K="), vec!["set", "wg-lynx-dash", "peer", "K=", "preshared-key", "/dev/stdin"]);
    assert_eq!(remove_peer_args("K="), vec!["set", "wg-lynx-dash", "peer", "K=", "remove"]);
}

#[test]
fn configured_keys() {
    assert_eq!(secret_from_file("  s3cret\n"), "s3cret");
    let key = decode_key32("AAECAwQFBgcICQoLDA0ODxAREhMUFRYXGBkaGxwdHh8=\n").unwrap();
    assert_eq!(key[0], 0);
    assert_eq!(key[31], 31);
    assert_eq!(decode_key32("not base64!"), Err(KeyError::Encoding));
    assert_eq!(decode_key32("AAECAw=="), Err(KeyError::Length));
    assert_eq!(KeyError::Length.message(), "key must be exactly 32 bytes");
}
