use std::time::{Duration, Instant};
use tix_core::state::connection::PhaseKind;
use tix_core::{ConnectionPhase, PeerCapabilities, TixError};

#[test]
fn happy_path_lifecycle() {
    let mut phase = ConnectionPhase::Disconnected;

    phase.begin_connect().unwrap();
    assert_eq!(phase, ConnectionPhase::Connecting);

    phase.begin_handshake().unwrap();
    assert_eq!(phase, ConnectionPhase::Handshaking);

    phase.complete_handshake().unwrap();
    assert!(phase.is_connected());
    assert!(phase.connected_duration().is_some());

    phase.begin_disconnect().unwrap();
    assert_eq!(phase, ConnectionPhase::Disconnecting);

    phase.finish_disconnect().unwrap();
    assert!(phase.is_disconnected());
}

#[test]
fn invalid_transition_connect_when_connected() {
    let mut phase = ConnectionPhase::Connected {
        since: Instant::now(),
    };
    assert!(phase.begin_connect().is_err());
}

#[test]
fn invalid_transition_handshake_from_disconnected() {
    let mut phase = ConnectionPhase::Disconnected;
    assert!(phase.begin_handshake().is_err());
}

#[test]
fn invalid_transition_complete_handshake_from_connecting() {
    let mut phase = ConnectionPhase::Connecting;
    assert!(phase.complete_handshake().is_err());
}

#[test]
fn disconnect_from_handshaking() {
    let mut phase = ConnectionPhase::Handshaking;
    phase.begin_disconnect().unwrap();
    assert_eq!(phase, ConnectionPhase::Disconnecting);
    phase.finish_disconnect().unwrap();
    assert!(phase.is_disconnected());
}

#[test]
fn force_disconnect_from_any_state() {
    let mut phase = ConnectionPhase::Connected {
        since: Instant::now(),
    };
    phase.force_disconnect();
    assert!(phase.is_disconnected());
}

#[test]
fn finish_disconnect_from_connecting_on_failure() {
    let mut phase = ConnectionPhase::Connecting;
    phase.finish_disconnect().unwrap();
    assert!(phase.is_disconnected());
}

#[test]
fn display_format() {
    assert_eq!(ConnectionPhase::Disconnected.to_string(), "Disconnected");
    assert_eq!(ConnectionPhase::Connecting.to_string(), "Connecting");
    assert_eq!(ConnectionPhase::Handshaking.to_string(), "Handshaking");
    assert_eq!(
        ConnectionPhase::Connected {
            since: Instant::now()
        }
        .to_string(),
        "Connected"
    );
    assert_eq!(ConnectionPhase::Disconnecting.to_string(), "Disconnecting");
}

#[test]
fn capabilities_negotiate() {
    let local = PeerCapabilities {
        screen_capture: true,
        compression: false,
        ..Default::default()
    };
    let remote = PeerCapabilities {
        screen_capture: false,
        compression: true,
        max_payload_size: 1024,
        ..Default::default()
    };
    let negotiated = local.negotiate(&remote);
    assert!(!negotiated.screen_capture);
    assert!(!negotiated.compression);
    assert_eq!(negotiated.max_payload_size, 1024);
    assert!(negotiated.shell_streaming);
}

#[test]
fn default_phase_is_disconnected() {
    let phase = ConnectionPhase::default();
    assert!(phase.is_disconnected());
}

fn all_phases() -> Vec<ConnectionPhase> {
    vec![
        ConnectionPhase::Disconnected,
        ConnectionPhase::Connecting,
        ConnectionPhase::Handshaking,
        ConnectionPhase::Connected { since: Instant::now() },
        ConnectionPhase::Disconnecting,
    ]
}

fn check_edges(
    to: PhaseKind,
    allowed_from: &[PhaseKind],
    step: fn(&mut ConnectionPhase) -> Result<(), TixError>,
) {
    for start in all_phases() {
        let mut phase = start.clone();
        let r = step(&mut phase);
        if allowed_from.contains(&start.phase_kind()) {
            assert!(r.is_ok());
            assert_eq!(phase.phase_kind(), to);
        } else {
            assert!(matches!(r, Err(TixError::ProtocolViolation(_))));
            assert_eq!(phase, start);
        }
    }
}

#[test]
fn transitions_take_exactly_the_allowed_edges() {
    check_edges(
        PhaseKind::Connecting,
        &[PhaseKind::Disconnected],
        ConnectionPhase::begin_connect,
    );
    check_edges(
        PhaseKind::Handshaking,
        &[PhaseKind::Connecting],
        ConnectionPhase::begin_handshake,
    );
    check_edges(
        PhaseKind::Connected,
        &[PhaseKind::Handshaking],
        ConnectionPhase::complete_handshake,
    );
    check_edges(
        PhaseKind::Disconnecting,
        &[PhaseKind::Handshaking, PhaseKind::Connected],
        ConnectionPhase::begin_disconnect,
    );
    check_edges(
        PhaseKind::Disconnected,
        &[
            PhaseKind::Disconnecting,
            PhaseKind::Connecting,
            PhaseKind::Handshaking,
        ],
        ConnectionPhase::finish_disconnect,
    );
    for start in all_phases() {
        let mut phase = start;
        phase.force_disconnect();
        assert_eq!(phase, ConnectionPhase::Disconnected);
    }
}

#[test]
fn connected_duration_is_measured_from_since() {
    let t0 = Instant::now();
    let phase = ConnectionPhase::Connected { since: t0 };
    assert_eq!(
        phase.connected_duration_at(&(t0 + Duration::from_secs(3))),
        Some(Duration::from_secs(3))
    );
    assert_eq!(ConnectionPhase::Handshaking.connected_duration_at(&t0), None);
    assert!(ConnectionPhase::Disconnected.connected_duration().is_none());
    let mut p = ConnectionPhase::Handshaking;
    p.complete_handshake_at(t0).unwrap();
    assert_eq!(p, ConnectionPhase::Connected { since: t0 });
}

#[test]
fn negotiation_is_commutative_and_idempotent() {
    let a = PeerCapabilities {
        shell_streaming: true,
        file_delta_sync: false,
        screen_capture: true,
        compression: false,
        max_payload_size: 4096,
    };
    let b = PeerCapabilities {
        shell_streaming: false,
        file_delta_sync: false,
        screen_capture: true,
        compression: true,
        max_payload_size: 1024,
    };
    assert_eq!(a.negotiate(&b), b.negotiate(&a));
    assert_eq!(a.negotiate(&a), a);
    assert_eq!(a.negotiate(&b).negotiate(&b), a.negotiate(&b));
    assert_eq!(
        a.negotiate(&b),
        PeerCapabilities {
            shell_streaming: false,
            file_delta_sync: false,
            screen_capture: true,
            compression: false,
            max_payload_size: 1024,
        }
    );
    let d = PeerCapabilities::default();
    assert!(d.shell_streaming && d.file_delta_sync && d.screen_capture && d.compression);
    assert_eq!(d.max_payload_size, 256 * 1024);
}
