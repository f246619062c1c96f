use std::sync::atomic::{AtomicBool, Ordering};
use std::sync::Arc;

use aether::net::{IpAddress, SocketAddress};
use aether::tun::{
    bypass_route_args_for, default_routes_for, elevate_argv_for, elevation_hint_for, not_linked_error,
    parse_ip_packet_header, TunConfig, TunGuard, TunHandle,
};

fn socks() -> SocketAddress {
    SocketAddress::parse("127.0.0.1:1819").unwrap()
}

fn ip(s: &str) -> IpAddress {
    IpAddress::parse(s).unwrap()
}

fn cfg_with_mtu(mtu: u16) -> TunConfig {
    TunConfig { socks: socks(), mtu, bypass_ips: Vec::new() }
}

#[test]
fn tun_config_defaults_are_sane() {
    let cfg = TunConfig::new(socks());
    assert_eq!(cfg.mtu, 1500);
    assert!(cfg.bypass_ips.is_empty());
    let cfg = cfg.with_bypass(vec![ip("162.159.192.1")]);
    assert_eq!(cfg.bypass_ips.len(), 1);
}

#[test]
fn validate_accepts_boundaries() {
    for mtu in [1280, 1500, 9000] {
        assert!(cfg_with_mtu(mtu).validate().is_ok(), "mtu {mtu}");
    }
}

#[test]
fn validate_rejects_out_of_range_and_names_value() {
    for mtu in [0, 1, 1279, 9001, u16::MAX] {
        let err = cfg_with_mtu(mtu).validate().unwrap_err();
        assert!(err.contains(&mtu.to_string()), "error must name the bad mtu {mtu}: {err}");
    }
    assert_eq!(cfg_with_mtu(1279).validate().unwrap_err(), "invalid TUN MTU 1279: must be in 1280..=9000");
}

#[test]
fn elevation_hint_is_non_empty() {
    for os in ["linux", "windows", "macos", "haiku"] {
        assert!(!elevation_hint_for(os).is_empty());
    }
}

#[test]
fn bypass_argv_windows() {
    let gw = ip("192.168.1.1");
    let v4 = ip("162.159.192.1");
    let v6 = ip("2606:4700:4700::1111");
    assert_eq!(
        bypass_route_args_for("windows", v4, gw).unwrap(),
        vec!["route", "add", "162.159.192.1", "mask", "255.255.255.255", "192.168.1.1"]
    );
    assert_eq!(
        bypass_route_args_for("windows", v6, gw).unwrap(),
        vec!["route", "add", "2606:4700:4700::1111/128", "192.168.1.1"]
    );
}

#[test]
fn bypass_argv_macos() {
    let gw = ip("192.168.1.1");
    let v4 = ip("162.159.192.1");
    let v6 = ip("2606:4700:4700::1111");
    assert_eq!(
        bypass_route_args_for("macos", v4, gw).unwrap(),
        vec!["route", "add", "-host", "162.159.192.1", "192.168.1.1"]
    );
    assert_eq!(
        bypass_route_args_for("macos", v6, gw).unwrap(),
        vec!["route", "add", "-inet6", "2606:4700:4700::1111", "192.168.1.1"]
    );
}

#[test]
fn bypass_argv_linux() {
    let gw = ip("192.168.1.1");
    let v4 = ip("162.159.192.1");
    let v6 = ip("2606:4700:4700::1111");
    assert_eq!(
        bypass_route_args_for("linux", v4, gw).unwrap(),
        vec!["ip", "route", "add", "162.159.192.1", "via", "192.168.1.1"]
    );
    assert_eq!(
        bypass_route_args_for("linux", v6, gw).unwrap(),
        vec!["ip", "-6", "route", "add", "2606:4700:4700::1111", "via", "192.168.1.1"]
    );
}

#[test]
fn bypass_argv_rejects_unknown_os() {
    let edge = ip("162.159.192.1");
    let gw = ip("192.168.1.1");
    let err = bypass_route_args_for("haiku", edge, gw).unwrap_err();
    assert!(err.contains("haiku"), "unexpected error: {err}");
}

#[test]
fn parse_ip_packet_header_extracts_ipv4_tcp() {
    let mut pkt = vec![0u8; 40];
    pkt[0] = 0x45;
    pkt[9] = 6;
    pkt[12..16].copy_from_slice(&[192, 168, 1, 50]);
    pkt[16..20].copy_from_slice(&[1, 1, 1, 1]);
    pkt[20..22].copy_from_slice(&54321u16.to_be_bytes());
    pkt[22..24].copy_from_slice(&443u16.to_be_bytes());

    let meta = parse_ip_packet_header(&pkt).expect("valid IPv4 packet");
    assert_eq!(meta.protocol, 6);
    assert_eq!(meta.src_ip.to_string(), "192.168.1.50");
    assert_eq!(meta.dst_ip.to_string(), "1.1.1.1");
    assert_eq!(meta.src_port, 54321);
    assert_eq!(meta.dst_port, 443);
    assert_eq!(meta.header_len, 20);
}

#[test]
fn parse_ip_packet_header_rejects_truncated() {
    assert_eq!(parse_ip_packet_header(&[]), None);
    assert_eq!(parse_ip_packet_header(&[0x45]), None);
    assert_eq!(parse_ip_packet_header(&[0x60]), None);
}

#[test]
fn ipv6_udp_header_is_read_and_other_versions_refused() {
    let mut pkt = vec![0u8; 48];
    pkt[0] = 0x60;
    pkt[6] = 17;
    pkt[8] = 0x26;
    pkt[9] = 0x06;
    pkt[23] = 1;
    pkt[24] = 0xfe;
    pkt[25] = 0x80;
    pkt[39] = 2;
    pkt[40..42].copy_from_slice(&5353u16.to_be_bytes());
    pkt[42..44].copy_from_slice(&53u16.to_be_bytes());
    let meta = parse_ip_packet_header(&pkt).expect("valid IPv6 packet");
    assert_eq!(meta.protocol, 17);
    assert_eq!(meta.src_ip.to_string(), "2606::1");
    assert_eq!(meta.dst_ip.to_string(), "fe80::2");
    assert_eq!((meta.src_port, meta.dst_port, meta.header_len), (5353, 53, 40));

    // ICMP carries no ports; a version-5 packet is nothing we read.
    let mut icmp = vec![0u8; 28];
    icmp[0] = 0x45;
    icmp[9] = 1;
    let meta = parse_ip_packet_header(&icmp).expect("ICMP header");
    assert_eq!((meta.src_port, meta.dst_port), (0, 0));
    let mut v5 = vec![0u8; 40];
    v5[0] = 0x55;
    assert_eq!(parse_ip_packet_header(&v5), None);
    // An IHL longer than the packet is refused.
    let mut long_ihl = vec![0u8; 20];
    long_ihl[0] = 0x4f;
    assert_eq!(parse_ip_packet_header(&long_ihl), None);
}

struct StubHandle {
    stopped: Arc<AtomicBool>,
}

impl TunHandle for StubHandle {
    fn stop(&mut self) {
        self.stopped.store(true, Ordering::SeqCst);
    }
}

#[test]
fn default_routes_cover_both_halves_per_os() {
    for os in ["linux", "macos", "windows"] {
        let pair = default_routes_for(os, "tun0").expect(os);
        assert_eq!(pair.add_all.len(), 2, "{os} needs both halves");
        assert_eq!(pair.del_all.len(), 2, "{os} needs both removals");
        let flat: String = pair.add_all.concat().join(" ");
        assert!(flat.contains("tun0"), "{os} must name the device");
        assert!(pair.add_all != pair.del_all, "{os} add != del");
    }
    assert!(default_routes_for("plan9", "tun0").is_err());
}

#[test]
fn elevation_wraps_argv_per_os() {
    let cmd = vec!["ip".to_string(), "route".to_string(), "add".to_string()];
    let elevated = elevate_argv_for("linux", cmd.clone()).expect("pkexec");
    assert_eq!(elevated[0], "pkexec");
    assert_eq!(&elevated[1..], &cmd[..]);

    let elevated = elevate_argv_for("macos", cmd.clone()).expect("osascript");
    assert_eq!(elevated[0], "osascript");
    assert!(elevated[2].contains("administrator privileges"));

    assert!(elevate_argv_for("windows", cmd.clone()).is_err());
    assert!(elevate_argv_for("linux", Vec::new()).is_err());
}

#[test]
fn macos_elevation_escapes_and_quotes_arguments() {
    let cmd = vec!["echo".to_string(), "a b".to_string(), "q\"x".to_string(), "back\\slash".to_string()];
    let elevated = elevate_argv_for("macos", cmd).expect("osascript");
    assert_eq!(
        elevated,
        vec![
            "osascript".to_string(),
            "-e".to_string(),
            "do shell script \"echo \\\"a b\\\" \\\"q\\\"x\\\" back\\\\slash\" with administrator privileges"
                .to_string(),
        ]
    );
    assert_eq!(
        elevate_argv_for("windows", vec!["x".to_string()]).unwrap_err(),
        "no argv-level elevation on 'windows': run the app elevated (Windows: installer service / Run as administrator)"
    );
}

#[test]
fn disarmed_guard_drops_silently() {
    let stopped = Arc::new(AtomicBool::new(false));
    let mut guard = TunGuard::new(Box::new(StubHandle { stopped: stopped.clone() }), vec![vec!["ip".to_string()]]);
    assert!(guard.is_armed());
    guard.disarm();
    assert!(!guard.is_armed());
    let removals = guard.teardown();
    assert!(removals.is_empty());
    drop(guard);
    assert!(!stopped.load(Ordering::SeqCst));
}

#[test]
fn armed_guard_stops_and_hands_back_removals_once() {
    let stopped = Arc::new(AtomicBool::new(false));
    let pair = default_routes_for("linux", "tun0").unwrap();
    let mut guard = TunGuard::new(Box::new(StubHandle { stopped: stopped.clone() }), pair.del_all.clone());
    let removals = guard.teardown();
    assert_eq!(removals, pair.del_all);
    assert!(stopped.load(Ordering::SeqCst));
    assert!(!guard.is_armed());
    assert!(guard.teardown().is_empty());
}

#[test]
fn default_routes_are_exact_per_os() {
    let linux = default_routes_for("linux", "tun0").unwrap();
    assert_eq!(linux.add_all[0], vec!["ip", "route", "add", "0.0.0.0/1", "dev", "tun0"]);
    assert_eq!(linux.del_all[1], vec!["ip", "route", "del", "128.0.0.0/1", "dev", "tun0"]);
    let mac = default_routes_for("macos", "utun9").unwrap();
    assert_eq!(mac.add_all[1], vec!["route", "add", "-net", "128.0.0.0/1", "-interface", "utun9"]);
    let win = default_routes_for("windows", "12").unwrap();
    assert_eq!(
        win.add_all[0],
        vec!["route", "add", "0.0.0.0", "mask", "128.0.0.0", "0.0.0.0", "metric", "5", "if", "12"]
    );
    assert_eq!(win.del_all[1], vec!["route", "delete", "128.0.0.0", "mask", "128.0.0.0"]);
    assert_eq!(
        default_routes_for("plan9", "x").unwrap_err(),
        "unsupported OS for TUN default routes: 'plan9'"
    );
}

#[test]
fn missing_driver_error_mentions_tun() {
    assert!(not_linked_error().to_ascii_lowercase().contains("tun"));
}
