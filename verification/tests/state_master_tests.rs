use std::time::{Duration, Instant};
use tix_core::{Command, MasterState, Packet, PeerCapabilities};

fn dummy_packet() -> Packet {
    Packet::new_command(1, Command::Ping, Vec::new()).unwrap()
}

#[test]
fn track_and_resolve() {
    let mut state = MasterState::new();
    state.track(42, dummy_packet());
    assert_eq!(state.pending_count(), 1);
    assert!(state.is_request_pending(42));

    let pkt = state.resolve(42);
    assert!(pkt.is_some());
    assert_eq!(state.pending_count(), 0);
}

#[test]
fn resolve_missing_returns_none() {
    let mut state = MasterState::new();
    assert!(state.resolve(999).is_none());
}

#[test]
fn track_without_deadline_never_expires() {
    let mut state = MasterState::new();
    state.track_with_deadline(1, dummy_packet(), None);
    assert!(state.check_timeouts().is_empty());
}

#[test]
fn phase_starts_disconnected() {
    let state = MasterState::new();
    assert!(state.phase().is_disconnected());
}

#[test]
fn master_phase_transitions() {
    let mut state = MasterState::new();
    state.phase_mut().begin_connect().unwrap();
    state.phase_mut().begin_handshake().unwrap();
    state.phase_mut().complete_handshake().unwrap();
    assert!(state.phase().is_connected());
}

#[test]
fn master_negotiate_capabilities() {
    let mut state = MasterState::new();
    let remote = PeerCapabilities {
        screen_capture: false,
        ..Default::default()
    };
    let negotiated = state.negotiate_capabilities(&remote);
    assert!(!negotiated.screen_capture);
    assert!(state.negotiated_capabilities().is_some());
}

#[test]
fn get_request_returns_tracked() {
    let mut state = MasterState::new();
    state.track(10, dummy_packet());
    let req = state.get_request(10).unwrap();
    assert!(req.deadline.is_none());
    assert!(req.elapsed() < Duration::from_secs(1));
}

#[test]
fn deadlines_expire_strictly_after_they_pass() {
    let mut state = MasterState::new();
    let t0 = Instant::now();
    state.track_at(1, dummy_packet(), Some(Duration::from_millis(50)), t0);
    state.track_at(2, dummy_packet(), None, t0);
    state.track_at(3, dummy_packet(), Some(Duration::from_millis(200)), t0);

    assert!(state.check_timeouts_at(&t0).is_empty());
    assert!(state
        .check_timeouts_at(&(t0 + Duration::from_millis(50)))
        .is_empty());
    assert_eq!(
        state.check_timeouts_at(&(t0 + Duration::from_millis(51))),
        vec![1]
    );
    let mut late = state.check_timeouts_at(&(t0 + Duration::from_secs(1)));
    late.sort();
    assert_eq!(late, vec![1, 3]);
    // nothing was removed by looking
    assert_eq!(state.pending_count(), 3);

    let req = state.get_request(1).unwrap();
    assert!(!req.is_expired_at(&t0));
    assert!(req.is_expired_at(&(t0 + Duration::from_millis(51))));
    assert!(!state.get_request(2).unwrap().is_expired());
}

#[test]
fn drain_takes_exactly_the_expired() {
    let mut state = MasterState::new();
    let t0 = Instant::now();
    state.track_at(1, dummy_packet(), Some(Duration::ZERO), t0);
    state.track_at(2, dummy_packet(), None, t0);
    state.track_at(3, dummy_packet(), Some(Duration::from_secs(10)), t0);

    let drained = state.drain_expired_at(&(t0 + Duration::from_millis(1)));
    assert_eq!(drained.len(), 1);
    assert_eq!(drained[0].0, 1);
    assert_eq!(drained[0].1.deadline, Some(Duration::ZERO));
    assert_eq!(state.pending_count(), 2);
    assert!(!state.is_request_pending(1));
    assert!(state.is_request_pending(2));
    assert!(state.is_request_pending(3));
    assert!(state.drain_expired_at(&(t0 + Duration::from_millis(1))).is_empty());
    assert!(state.drain_expired().is_empty());
}

#[test]
fn default_deadline_applies_to_track_only() {
    let mut state = MasterState::default();
    state.set_default_timeout(Duration::from_secs(30));
    state.track(1, dummy_packet());
    assert_eq!(
        state.get_request(1).unwrap().deadline,
        Some(Duration::from_secs(30))
    );
    state.track_with_deadline(2, dummy_packet(), None);
    assert!(state.get_request(2).unwrap().deadline.is_none());
    state.clear_default_timeout();
    state.track(3, dummy_packet());
    assert!(state.get_request(3).unwrap().deadline.is_none());
    // tracking again under an id replaces the entry
    state.track_with_deadline(3, dummy_packet(), Some(Duration::from_secs(1)));
    assert_eq!(state.pending_count(), 3);
    assert_eq!(
        state.get_request(3).unwrap().deadline,
        Some(Duration::from_secs(1))
    );
    let pkt = state.resolve(3).unwrap();
    assert_eq!(pkt.request_id(), 1);
    assert!(state.get_request(3).is_none());
}

#[test]
fn local_capabilities_feed_the_negotiation() {
    let mut state = MasterState::new();
    assert_eq!(*state.local_capabilities(), PeerCapabilities::default());
    assert!(state.negotiated_capabilities().is_none());
    let local = PeerCapabilities {
        compression: false,
        max_payload_size: 100,
        ..Default::default()
    };
    state.set_local_capabilities(local);
    let remote = PeerCapabilities {
        file_delta_sync: false,
        max_payload_size: 500,
        ..Default::default()
    };
    let got = *state.negotiate_capabilities(&remote);
    assert!(!got.compression);
    assert!(!got.file_delta_sync);
    assert_eq!(got.max_payload_size, 100);
    assert_eq!(state.negotiated_capabilities(), Some(&got));
}
