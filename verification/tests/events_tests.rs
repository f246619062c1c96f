use aether::events::{buffered_len, clear, drain_events, emit, ApiEvent, EventBuffer, MAX_EVENTS};
use aether::net::SocketAddress;

#[test]
fn emit_then_drain_returns_fifo_order() {
    let mut buf = EventBuffer::new();
    emit(&mut buf, ApiEvent::StateChanged { state: "scanning".to_string() });
    emit(&mut buf, ApiEvent::ScanCandidate { ip: "162.159.192.1".to_string(), port: 443, rtt_ms: 42 });
    assert_eq!(buffered_len(&buf), 2);
    let drained = drain_events(&mut buf, 0);
    assert_eq!(drained.len(), 2);
    assert!(matches!(drained[0], ApiEvent::StateChanged { .. }));
    assert!(matches!(drained[1], ApiEvent::ScanCandidate { .. }));
    assert_eq!(buffered_len(&buf), 0);
}

#[test]
fn drain_respects_max() {
    let mut buf = EventBuffer::new();
    for i in 0..5 {
        emit(&mut buf, ApiEvent::Reconnecting { in_secs: i });
    }
    let first = drain_events(&mut buf, 2);
    assert_eq!(first.len(), 2);
    assert_eq!(first[0], ApiEvent::Reconnecting { in_secs: 0 });
    assert_eq!(buffered_len(&buf), 3);
    assert_eq!(drain_events(&mut buf, 0)[0], ApiEvent::Reconnecting { in_secs: 2 });
    clear(&mut buf);
}

#[test]
fn ring_buffer_caps_at_max_events() {
    let mut buf = EventBuffer::new();
    for i in 0..(MAX_EVENTS + 50) {
        emit(&mut buf, ApiEvent::Reconnecting { in_secs: i as u64 });
    }
    assert_eq!(buffered_len(&buf), MAX_EVENTS);
    let all = drain_events(&mut buf, 0);
    assert!(matches!(
        all.last(),
        Some(ApiEvent::Reconnecting { in_secs }) if *in_secs == (MAX_EVENTS + 49) as u64
    ));
    assert_eq!(all[0], ApiEvent::Reconnecting { in_secs: 50 });
}

#[test]
fn event_constructors_render_addresses() {
    let ep = SocketAddress::parse("1.2.3.4:443").unwrap();
    assert_eq!(ApiEvent::scan_done(&ep, 12), ApiEvent::ScanDone { endpoint: "1.2.3.4:443".to_string(), rtt_ms: 12 });
    let v6 = SocketAddress::parse("[2606:4700::1]:2408").unwrap();
    assert_eq!(
        ApiEvent::tunnel_up(&v6, "gool"),
        ApiEvent::TunnelUp { peer: "[2606:4700::1]:2408".to_string(), transport: "gool".to_string() }
    );
}

#[test]
fn clear_empties_the_buffer() {
    let mut buf = EventBuffer::new();
    emit(&mut buf, ApiEvent::TunnelDown { reason: "x".to_string() });
    clear(&mut buf);
    assert_eq!(buffered_len(&buf), 0);
    assert!(drain_events(&mut buf, 0).is_empty());
}
