use std::sync::atomic::{AtomicBool, Ordering};
use std::sync::Arc;

use aether::commands::{get_traffic_mode, set_traffic_mode};
use aether::mode::{plan, ModeManager, ModePlan, TrafficMode};
use aether::net::SocketAddress;
use aether::proxy::{gnome_disable_args, ProxyGuard};
use aether::tun::{TunConfig, TunHandle};

fn socks() -> SocketAddress {
    SocketAddress::parse("127.0.0.1:1819").unwrap()
}

struct StubHandle {
    stopped: Arc<AtomicBool>,
}

impl TunHandle for StubHandle {
    fn stop(&mut self) {
        self.stopped.store(true, Ordering::SeqCst);
    }
}

#[test]
fn parse_label_roundtrip_incl_bad_input() {
    for mode in [TrafficMode::ProxyOnly, TrafficMode::SystemProxy, TrafficMode::VpnTun] {
        assert_eq!(TrafficMode::parse(mode.label()), Ok(mode));
    }
    assert_eq!(TrafficMode::parse("proxy"), Ok(TrafficMode::ProxyOnly));
    assert_eq!(TrafficMode::parse("manual"), Ok(TrafficMode::ProxyOnly));
    assert_eq!(TrafficMode::parse("system"), Ok(TrafficMode::SystemProxy));
    assert_eq!(TrafficMode::parse("vpn"), Ok(TrafficMode::VpnTun));
    assert_eq!(TrafficMode::parse("tun"), Ok(TrafficMode::VpnTun));
    assert_eq!(TrafficMode::parse(" PROXY "), Ok(TrafficMode::ProxyOnly));
    assert!(TrafficMode::parse("bogus").is_err());
    assert!(TrafficMode::parse("").is_err());
    assert_eq!(TrafficMode::default(), TrafficMode::ProxyOnly);
}

#[test]
fn unknown_mode_error_quotes_the_normalised_name() {
    assert_eq!(
        TrafficMode::parse("  BoGuS ").unwrap_err(),
        "unknown traffic mode: 'bogus' (expected proxy|system|vpn)"
    );
}

#[test]
fn plan_covers_all_modes() {
    let socks = socks();
    assert_eq!(plan(TrafficMode::ProxyOnly, socks), ModePlan::NoOp);
    assert_eq!(plan(TrafficMode::SystemProxy, socks), ModePlan::ApplyProxy);
    match plan(TrafficMode::VpnTun, socks) {
        ModePlan::StartTun(cfg) => assert_eq!(cfg, TunConfig::new(socks)),
        other => panic!("expected StartTun, got {other:?}"),
    }
    assert_eq!(ModeManager::plan(TrafficMode::ProxyOnly, socks), ModePlan::NoOp);
}

#[test]
fn cleanup_idempotent_and_resets_mode() {
    let mut mgr = ModeManager::new();
    assert_eq!(mgr.current(), TrafficMode::ProxyOnly);
    assert!(!mgr.is_tun_on());
    let stopped = Arc::new(AtomicBool::new(false));
    assert!(mgr.arm_system_proxy(ProxyGuard::new(gnome_disable_args())).is_empty());
    assert_eq!(mgr.current(), TrafficMode::SystemProxy);
    assert!(!mgr.is_tun_on());
    // Arming VPN mode cleans the system proxy up first.
    let cmds = mgr.arm_tun(Box::new(StubHandle { stopped: stopped.clone() }));
    assert_eq!(cmds, gnome_disable_args());
    assert!(mgr.is_tun_on());
    assert_eq!(mgr.current(), TrafficMode::VpnTun);
    assert!(!stopped.load(Ordering::SeqCst));
    assert!(mgr.cleanup().is_empty());
    assert!(stopped.load(Ordering::SeqCst));
    assert_eq!(mgr.current(), TrafficMode::ProxyOnly);
    assert!(!mgr.is_tun_on());
    assert!(mgr.cleanup().is_empty());
    assert_eq!(mgr.current(), TrafficMode::ProxyOnly);
    assert!(!mgr.is_tun_on());
}

#[test]
fn vpn_arm_errors_mentioning_tun() {
    let mut mgr = ModeManager::new();
    let (cmds, outcome) = mgr.on_connected(TrafficMode::VpnTun, socks());
    assert!(cmds.is_empty());
    let err = outcome.expect_err("VpnTun without the driver linked must fail");
    assert!(err.to_ascii_lowercase().contains("tun"), "error should mention tun, got: {err}");
    assert_eq!(mgr.current(), TrafficMode::ProxyOnly);
    assert!(!mgr.is_tun_on());
}

#[test]
fn proxy_only_arm_ok_without_side_effects() {
    let mut mgr = ModeManager::new();
    let (cmds, outcome) = mgr.on_connected(TrafficMode::ProxyOnly, socks());
    assert!(cmds.is_empty());
    assert_eq!(outcome.expect("ProxyOnly must succeed"), ModePlan::NoOp);
    assert_eq!(mgr.current(), TrafficMode::ProxyOnly);
    assert!(!mgr.is_tun_on());
    mgr.cleanup();
    assert_eq!(mgr.current(), TrafficMode::ProxyOnly);
}

#[test]
fn tunnel_up_arms_proxy_only_without_side_effects() {
    let mut mgr = ModeManager::default();
    let (cmds, outcome) = mgr.on_connected(TrafficMode::default(), socks());
    assert!(cmds.is_empty());
    assert!(outcome.is_ok(), "proxy-only arm must succeed");
    assert!(mgr.cleanup().is_empty());
}

#[test]
fn switching_modes_cleans_up_the_previous_one_first() {
    let mut mgr = ModeManager::new();
    let (_, outcome) = mgr.on_connected(TrafficMode::SystemProxy, socks());
    assert_eq!(outcome, Ok(ModePlan::ApplyProxy));
    // Until the caller reports the proxy enabled, nothing is armed.
    assert_eq!(mgr.current(), TrafficMode::ProxyOnly);
    mgr.arm_system_proxy(ProxyGuard::new(gnome_disable_args()));
    assert_eq!(mgr.current(), TrafficMode::SystemProxy);
    let (cmds, outcome) = mgr.on_connected(TrafficMode::ProxyOnly, socks());
    assert_eq!(cmds, gnome_disable_args());
    assert_eq!(outcome, Ok(ModePlan::NoOp));
    assert_eq!(mgr.current(), TrafficMode::ProxyOnly);
}

#[test]
fn traffic_mode_roundtrips_and_rejects_garbage() {
    let mut stored = TrafficMode::default();
    assert_eq!(get_traffic_mode(&stored), "proxy");
    assert_eq!(set_traffic_mode(&mut stored, "system").as_deref(), Ok("system"));
    assert_eq!(get_traffic_mode(&stored), "system");
    assert_eq!(set_traffic_mode(&mut stored, " TUN ").as_deref(), Ok("vpn"));
    assert!(set_traffic_mode(&mut stored, "bogus").is_err());
    // Rejected input leaves the stored mode untouched.
    assert_eq!(get_traffic_mode(&stored), "vpn");
}
