use aether::error::AetherError;
use aether::events::{drain_events, ApiEvent, EventBuffer};
use aether::phase::{BackendState, ConnectionPhase, SnapshotDto};

#[test]
fn happy_path_transitions_are_legal() {
    let mut app = BackendState::new();
    let mut events = EventBuffer::new();
    for next in [
        ConnectionPhase::Provisioning,
        ConnectionPhase::Scanning,
        ConnectionPhase::Verifying,
        ConnectionPhase::Connecting,
        ConnectionPhase::Connected,
        ConnectionPhase::Stopped,
    ] {
        app.set_phase(&mut events, next).expect("legal transition");
    }
    assert_eq!(app.phase, ConnectionPhase::Stopped);
}

#[test]
fn skipping_phases_is_rejected() {
    let mut app = BackendState::new();
    let mut events = EventBuffer::new();
    let err = app.set_phase(&mut events, ConnectionPhase::Connected).expect_err("Idle → Connected must fail");
    assert!(err.contains("illegal phase transition"));
    assert_eq!(err, "illegal phase transition idle → connected");
    assert!(drain_events(&mut events, 0).is_empty());
}

#[test]
fn forced_peer_may_skip_verify() {
    let mut app = BackendState::new();
    let mut events = EventBuffer::new();
    app.set_phase(&mut events, ConnectionPhase::Provisioning).unwrap();
    app.set_phase(&mut events, ConnectionPhase::Scanning).unwrap();
    app.set_phase(&mut events, ConnectionPhase::Connecting).unwrap();
    assert_eq!(app.phase, ConnectionPhase::Connecting);
}

#[test]
fn failed_verify_can_rescan() {
    let mut app = BackendState::new();
    let mut events = EventBuffer::new();
    app.set_phase(&mut events, ConnectionPhase::Provisioning).unwrap();
    app.set_phase(&mut events, ConnectionPhase::Scanning).unwrap();
    app.set_phase(&mut events, ConnectionPhase::Verifying).unwrap();
    app.set_phase(&mut events, ConnectionPhase::Scanning).unwrap();
    assert_eq!(app.phase, ConnectionPhase::Scanning);
}

#[test]
fn stopped_can_reconnect_without_reprovision() {
    let mut app = BackendState::new();
    let mut events = EventBuffer::new();
    app.set_phase(&mut events, ConnectionPhase::Provisioning).unwrap();
    app.set_phase(&mut events, ConnectionPhase::Scanning).unwrap();
    app.set_phase(&mut events, ConnectionPhase::Connecting).unwrap();
    app.set_phase(&mut events, ConnectionPhase::Stopped).unwrap();
    app.set_phase(&mut events, ConnectionPhase::Connecting).unwrap();
    assert_eq!(app.phase, ConnectionPhase::Connecting);
}

#[test]
fn set_error_records_message_and_phase() {
    let mut app = BackendState::new();
    let mut events = EventBuffer::new();
    app.set_phase(&mut events, ConnectionPhase::Provisioning).unwrap();
    app.set_error(&mut events, "boom".to_string());
    assert_eq!(app.phase, ConnectionPhase::Error);
    let (_, _, err) = app.snapshot();
    assert_eq!(err.as_deref(), Some("boom"));
    let drained = drain_events(&mut events, 0);
    assert_eq!(drained.last(), Some(&ApiEvent::Error { message: "boom".to_string() }));
}

#[test]
fn snapshot_dto_renders_phase_label() {
    let mut app = BackendState::new();
    assert_eq!(app.snapshot_dto(), SnapshotDto { phase: "idle".to_string(), gateway: None, error: None });
    app.set_gateway(Some("1.2.3.4:443".to_string()));
    assert_eq!(app.snapshot_dto().gateway.as_deref(), Some("1.2.3.4:443"));
}

#[test]
fn disconnect_is_safe_in_any_phase() {
    let mut app = BackendState::new();
    let mut events = EventBuffer::new();
    app.stop(&mut events).expect("Idle disconnect is a no-op");
    assert_eq!(app.phase, ConnectionPhase::Idle);
    app.set_phase(&mut events, ConnectionPhase::Provisioning).unwrap();
    app.stop(&mut events).unwrap();
    assert_eq!(app.phase, ConnectionPhase::Stopped);
    app.stop(&mut events).unwrap();
    assert_eq!(app.phase, ConnectionPhase::Stopped);
}

#[test]
fn connect_refuses_a_second_tunnel_and_ends_stopped() {
    let mut app = BackendState::new();
    let mut events = EventBuffer::new();
    app.begin_connect(&mut events).unwrap();
    assert_eq!(app.phase, ConnectionPhase::Connecting);
    assert_eq!(app.begin_connect(&mut events).unwrap_err(), "already connected or connecting");
    app.end_connect(&mut events, Err(AetherError::Cancelled)).unwrap();
    assert_eq!(app.phase, ConnectionPhase::Stopped);
    app.begin_connect(&mut events).unwrap();
    let err = app.end_connect(&mut events, Err(AetherError::Other("edge unreachable".to_string()))).unwrap_err();
    assert_eq!(err, "edge unreachable");
    assert_eq!(app.phase, ConnectionPhase::Error);
}

#[test]
fn every_label_is_lower_case_and_transitions_follow_the_table() {
    let all = [
        ConnectionPhase::Idle,
        ConnectionPhase::Provisioning,
        ConnectionPhase::Scanning,
        ConnectionPhase::Verifying,
        ConnectionPhase::Connecting,
        ConnectionPhase::Connected,
        ConnectionPhase::Reconnecting,
        ConnectionPhase::Stopped,
        ConnectionPhase::Error,
    ];
    let labels: Vec<&str> = all.iter().map(|p| p.as_str()).collect();
    assert_eq!(
        labels,
        vec!["idle", "provisioning", "scanning", "verifying", "connecting", "connected", "reconnecting", "stopped", "error"]
    );
    for p in all {
        assert!(!p.can_go(p));
    }
    assert!(ConnectionPhase::Idle.can_go(ConnectionPhase::Connecting));
    assert!(ConnectionPhase::Error.can_go(ConnectionPhase::Idle));
    assert!(!ConnectionPhase::Idle.can_go(ConnectionPhase::Connected));
    assert!(!ConnectionPhase::Stopped.can_go(ConnectionPhase::Scanning));
    assert_eq!(ConnectionPhase::default(), ConnectionPhase::Idle);
}
