use aether::api::{Endpoint, ScanRequest, Transport, TunnelSpec};
use aether::error::AetherError;
use aether::events::{buffered_len, drain_events, ApiEvent, EventBuffer};
use aether::guilog::{drain_logs, GuiLogLevel, LogBuffer};
use aether::net::{IpAddress, SocketAddress};
use aether::session::{
    dial_peer, gool_connecting, http_proxy_env, require_verified, scan_finished, scan_started,
    tunnel_connecting, tunnel_finished, verification_verdict, verify_finished, verify_started,
};

fn addr(s: &str) -> SocketAddress {
    SocketAddress::parse(s).unwrap()
}

#[test]
fn a_scan_reports_its_start_and_its_endpoint() {
    let mut events = EventBuffer::new();
    let mut logs = LogBuffer::new();
    let req = ScanRequest::for_transport(Transport::WireGuard).with_mode("turbo");
    scan_started(&mut events, &mut logs, &req);
    let ep = Endpoint { ip: IpAddress::V4(162, 159, 192, 1), port: 2408, rtt_ms: 31 };
    scan_finished(&mut events, &Ok(ep));
    assert_eq!(
        drain_events(&mut events, 0),
        vec![
            ApiEvent::ScanStarted { transport: "wireguard".to_string(), mode: "turbo".to_string() },
            ApiEvent::ScanDone { endpoint: "162.159.192.1:2408".to_string(), rtt_ms: 31 },
            ApiEvent::StateChanged { state: "verifying".to_string() },
        ]
    );
    let lines = drain_logs(&mut logs, 0, None);
    assert_eq!(lines.len(), 1);
    assert_eq!(lines[0].message, "scan started: transport=wireguard mode=turbo");
    assert_eq!(lines[0].level, GuiLogLevel::Info);
    assert_eq!(lines[0].target, "aether::api");

    scan_finished(&mut events, &Err(AetherError::Other("no gateway answered".to_string())));
    assert_eq!(drain_events(&mut events, 0), vec![ApiEvent::Error { message: "no gateway answered".to_string() }]);
}

#[test]
fn only_a_passed_verification_reports_ok() {
    let mut events = EventBuffer::new();
    let peer = addr("162.159.192.1:2408");
    verify_started(&mut events, &peer);
    verify_finished(&mut events, &peer, &Ok(false));
    verify_finished(&mut events, &peer, &Err(AetherError::Cancelled));
    verify_finished(&mut events, &peer, &Ok(true));
    assert_eq!(
        drain_events(&mut events, 0),
        vec![
            ApiEvent::Validating { peer: "162.159.192.1:2408".to_string() },
            ApiEvent::VerifyOk { peer: "162.159.192.1:2408".to_string() },
        ]
    );
}

#[test]
fn a_failed_handshake_means_rescan_but_a_cancel_stays_a_cancel() {
    assert_eq!(verification_verdict(Ok(())), Ok(true));
    assert_eq!(verification_verdict(Err(AetherError::Other("timeout".to_string()))), Ok(false));
    assert_eq!(verification_verdict(Err(AetherError::Cancelled)), Err(AetherError::Cancelled));
    assert!(require_verified(&addr("1.2.3.4:443"), true).is_ok());
    assert_eq!(
        require_verified(&addr("1.2.3.4:443"), false).unwrap_err().to_string(),
        "1.2.3.4:443 did not pass data-plane verification"
    );
}

#[test]
fn a_gool_spec_dials_its_outer_hop() {
    let peer = addr("1.1.1.1:443");
    let outer = addr("162.159.192.1:2408");
    let inner = addr("188.114.96.1:2408");
    assert_eq!(dial_peer(&TunnelSpec::for_transport(Transport::Masque), peer), peer);
    let gool = TunnelSpec::for_transport(Transport::WireGuard).with_gool_peers(outer, inner).unwrap();
    assert_eq!(dial_peer(&gool, peer), outer);
    assert_eq!(dial_peer(&TunnelSpec::for_transport(Transport::WarpInWarp), peer), peer);
    assert_eq!(http_proxy_env(&gool), None);
    assert_eq!(http_proxy_env(&gool.with_http(addr("127.0.0.1:8086"))), Some("127.0.0.1:8086".to_string()));
}

#[test]
fn gool_connect_rejects_same_edge_before_any_io() {
    let mut events = EventBuffer::new();
    let mut logs = LogBuffer::new();
    let same = addr("162.159.192.1:2408");
    let err = gool_connecting(&mut events, &mut logs, &same, &addr("162.159.192.1:894")).unwrap_err();
    assert!(err.to_string().contains("two separate edges"), "same edge twice");
    assert_eq!(buffered_len(&events), 0);
    gool_connecting(&mut events, &mut logs, &same, &addr("188.114.96.1:2408")).expect("two separate edges");
    assert_eq!(drain_events(&mut events, 0), vec![ApiEvent::StateChanged { state: "connecting".to_string() }]);
    assert_eq!(
        drain_logs(&mut logs, 0, None)[0].message,
        "gool tunnel connecting: outer=162.159.192.1:2408 inner=188.114.96.1:2408"
    );
}

#[test]
fn a_tunnel_run_reports_why_it_ended() {
    let mut events = EventBuffer::new();
    let mut logs = LogBuffer::new();
    tunnel_connecting(&mut events, &mut logs, Transport::Masque, &addr("162.159.192.1:443"));
    tunnel_finished(&mut events, &Ok(()));
    tunnel_finished(&mut events, &Err(AetherError::Cancelled));
    tunnel_finished(&mut events, &Err(AetherError::Other("edge reset".to_string())));
    assert_eq!(
        drain_events(&mut events, 0),
        vec![
            ApiEvent::StateChanged { state: "connecting".to_string() },
            ApiEvent::TunnelDown { reason: "closed".to_string() },
            ApiEvent::TunnelDown { reason: "stopped".to_string() },
            ApiEvent::TunnelDown { reason: "edge reset".to_string() },
        ]
    );
    assert_eq!(drain_logs(&mut logs, 0, None)[0].message, "tunnel connecting: transport=masque peer=162.159.192.1:443");
}
