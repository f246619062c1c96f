use aether::api::{
    gool_paths, identity_path, normalize_team_name, IpScan, ScanRequest, TeamCredentials, Transport,
    TunnelSpec, MASQUE_PORTS, WG_PORTS,
};
use aether::events::{drain_events, report_stats, ApiEvent, EventBuffer};
use aether::net::SocketAddress;

#[test]
fn a_transport_is_read_from_standard_names_and_aliases() {
    assert_eq!(Transport::parse("wg"), Transport::WireGuard);
    assert_eq!(Transport::parse("WireGuard"), Transport::WireGuard);
    assert_eq!(Transport::parse("warp"), Transport::WireGuard);
    assert_eq!(Transport::parse("gool"), Transport::WarpInWarp);
    assert_eq!(Transport::parse("wiw"), Transport::WarpInWarp);
    assert_eq!(Transport::parse("warp-in-warp"), Transport::WarpInWarp);
    assert_eq!(Transport::parse("masque"), Transport::Masque);
    assert_eq!(Transport::parse("anything else"), Transport::Masque);
}

#[test]
fn each_transport_carries_the_port_the_edge_assigns() {
    assert_eq!(Transport::Masque.assigned_port(), 443);
    assert_eq!(Transport::WireGuard.assigned_port(), 2408);
    assert_eq!(Transport::WarpInWarp.assigned_port(), 2408);
    assert_eq!(Transport::WarpInWarp.label(), "gool");
    assert!(!Transport::Masque.default_ports().is_empty());
    assert!(!Transport::WireGuard.default_ports().is_empty());
    assert!(!Transport::WarpInWarp.default_ports().is_empty());
}

#[test]
fn transport_labels_parse_back() {
    for t in [Transport::Masque, Transport::WireGuard, Transport::WarpInWarp] {
        assert_eq!(Transport::parse(t.label()), t);
        assert_eq!(Transport::parse(&format!("  {}  ", t.label().to_uppercase())), t);
    }
}

#[test]
fn a_team_name_is_normalized_before_it_is_kept() {
    let credentials =
        TeamCredentials::new("https://My-Org.cloudflareaccess.com/warp").expect("a full url is usable");
    assert_eq!(credentials.team, "my-org");
    assert_eq!(credentials.login_url(), "https://my-org.cloudflareaccess.com/warp");
    assert!(TeamCredentials::new("bad name!").is_err());
}

#[test]
fn team_names_normalise_from_names_domains_and_urls() {
    assert_eq!(normalize_team_name("  Acme  "), Some("acme".to_string()));
    assert_eq!(normalize_team_name("acme.cloudflareaccess.com"), Some("acme".to_string()));
    assert_eq!(normalize_team_name(""), None);
    assert_eq!(
        TeamCredentials::new("bad name!").unwrap_err().to_string(),
        "'bad name!' is not a usable zero trust team name"
    );
}

#[test]
fn credentials_carry_whichever_sign_in_method_was_given() {
    let service = TeamCredentials::new("acme").expect("team").with_service_token("id.access", "secret");
    assert!(service.settings().has_service_token());

    let by_email = TeamCredentials::new("acme").expect("team").with_email("me@example.com");
    assert!(!by_email.settings().has_service_token());
    assert_eq!(by_email.email.as_deref(), Some("me@example.com"));
}

#[test]
fn identity_paths_follow_standard_naming_convention() {
    assert_eq!(identity_path("aether.toml", Transport::Masque, None), "aether-masque.toml");
    assert_eq!(identity_path("aether.toml", Transport::WireGuard, None), "aether.toml");
    assert_eq!(identity_path("aether.toml", Transport::Masque, Some("acme")), "aether-team-acme.toml");
    assert_eq!(
        identity_path("/var/lib/aether/aether.toml", Transport::WireGuard, Some("acme")),
        "/var/lib/aether/aether-team-acme.toml"
    );
}

#[test]
fn a_scan_request_starts_from_standard_engine_defaults() {
    let masque = ScanRequest::for_transport(Transport::Masque);
    assert_eq!(masque.mode, "balanced");
    assert_eq!(masque.ip, IpScan::V4);
    assert_eq!(masque.ports, MASQUE_PORTS.to_vec());

    let wg = ScanRequest::for_transport(Transport::WireGuard).with_mode("turbo");
    assert_eq!(wg.mode, "turbo");
    assert_eq!(wg.ports, WG_PORTS.to_vec());
}

#[test]
fn a_tunnel_spec_defaults_to_the_loopback_socks_port() {
    let spec = TunnelSpec::for_transport(Transport::Masque);
    assert_eq!(spec.socks.port, 1819);
    assert!(spec.socks.ip.is_loopback());
    assert!(spec.http.is_none());

    let with_http = spec.with_http(SocketAddress::parse("127.0.0.1:8086").unwrap());
    assert_eq!(with_http.http.map(|addr| addr.port), Some(8086));
}

#[test]
fn gool_scan_wants_two_endpoints_by_default() {
    assert_eq!(ScanRequest::for_transport(Transport::WarpInWarp).wanted, 2);
    assert_eq!(ScanRequest::for_transport(Transport::Masque).wanted, 1);
    let custom = ScanRequest::for_transport(Transport::Masque).with_wanted(0);
    assert_eq!(custom.wanted, 1);
}

#[test]
fn excluding_twice_keeps_one_copy() {
    let mut req = ScanRequest::for_transport(Transport::WireGuard);
    let a = SocketAddress::parse("162.159.192.1:2408").unwrap();
    req.exclude(a);
    req.exclude(a);
    assert_eq!(req.excluded, vec![a]);
}

#[test]
fn gool_tunnel_spec_validates_distinct_hops() {
    let outer = SocketAddress::parse("162.159.192.1:2408").unwrap();
    let inner = SocketAddress::parse("188.114.96.1:2408").unwrap();
    let spec = TunnelSpec::for_transport(Transport::WireGuard).with_gool_peers(outer, inner).expect("distinct hops");
    assert!(spec.is_gool());
    assert_eq!(spec.outer, Some(outer));
    let same = SocketAddress::parse("162.159.192.1:2408").unwrap();
    assert!(TunnelSpec::for_transport(Transport::WireGuard).with_gool_peers(same, same).is_err());
}

#[test]
fn gool_identity_uses_the_wireguard_file() {
    assert_eq!(identity_path("aether.toml", Transport::WarpInWarp, None), "aether.toml");
}

#[test]
fn gool_paths_put_the_secondary_beside_the_primary() {
    assert_eq!(
        gool_paths("aether.toml", None),
        ("aether.toml".to_string(), "aether-secondary.toml".to_string())
    );
    assert_eq!(
        gool_paths("aether.toml", Some("acme")),
        ("aether-team-acme.toml".to_string(), "aether-team-acme-secondary.toml".to_string())
    );
    assert_eq!(
        gool_paths("/var/lib/aether/aether.toml", None),
        ("/var/lib/aether/aether.toml".to_string(), "/var/lib/aether/aether-secondary.toml".to_string())
    );
}

#[test]
fn reported_stats_show_up_in_the_event_stream() {
    let mut events = EventBuffer::new();
    report_stats(&mut events, 1024, 2048);
    let drained = drain_events(&mut events, 0);
    assert!(drained.iter().any(|e| matches!(e, ApiEvent::Stats { rx_bytes: 1024, tx_bytes: 2048 })));
}

#[test]
fn wireguard_probes_use_the_identity_ipv4() {
    assert_eq!(aether::api::wg_local_v4("172.16.0.2"), Ok(aether::net::IpAddress::V4(172, 16, 0, 2)));
    assert_eq!(
        aether::api::wg_local_v4("::1").unwrap_err().to_string(),
        "identity has an unusable ipv4 ::1"
    );
    assert!(aether::api::wg_local_v4(" 172.16.0.2").is_err());
}

#[test]
fn a_saved_peer_is_reused_only_while_it_parses() {
    let cached = aether::api::cached_endpoint_from(" 162.159.192.1:443 ", "firewall".to_string()).expect("parses");
    assert_eq!(cached.peer.port, 443);
    assert_eq!(cached.peer.to_string(), "162.159.192.1:443");
    assert_eq!(cached.profile, "firewall");
    assert!(aether::api::cached_endpoint_from("162.159.192.1", "firewall".to_string()).is_none());
    assert!(aether::api::cached_endpoint_from("", "x".to_string()).is_none());
}
