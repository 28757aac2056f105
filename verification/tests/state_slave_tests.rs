use tix_core::{PeerCapabilities, SlaveState};

#[test]
fn new_state_defaults() {
    let state = SlaveState::new();
    assert!(state.phase().is_disconnected());
    assert_eq!(state.active_task_count(), 0);
    assert!(state.negotiated_capabilities().is_none());
}

#[test]
fn register_and_complete_task() {
    let mut state = SlaveState::new();
    assert!(state.register_task(1));
    assert!(state.register_task(2));
    assert_eq!(state.active_task_count(), 2);
    assert!(state.is_task_running(1));

    assert!(state.complete_task(1));
    assert!(!state.is_task_running(1));
    assert_eq!(state.active_task_count(), 1);
}

#[test]
fn duplicate_register_returns_false() {
    let mut state = SlaveState::new();
    assert!(state.register_task(1));
    assert!(!state.register_task(1)); // already tracked
}

#[test]
fn complete_unknown_task_returns_false() {
    let mut state = SlaveState::new();
    assert!(!state.complete_task(999));
}

#[test]
fn slave_phase_transitions() {
    let mut state = SlaveState::new();
    state.phase_mut().begin_connect().unwrap();
    state.phase_mut().begin_handshake().unwrap();
    state.phase_mut().complete_handshake().unwrap();
    assert!(state.phase().is_connected());
}

#[test]
fn slave_negotiate_capabilities() {
    let mut state = SlaveState::new();
    let remote = PeerCapabilities {
        compression: false,
        ..Default::default()
    };
    let negotiated = state.negotiate_capabilities(&remote);
    assert!(!negotiated.compression);
    assert!(state.negotiated_capabilities().is_some());
}

#[test]
fn active_task_ids_iterator() {
    let mut state = SlaveState::new();
    state.register_task(10);
    state.register_task(20);
    let mut ids: Vec<u64> = state.active_task_ids();
    ids.sort();
    assert_eq!(ids, vec![10, 20]);
}

#[test]
fn slave_capabilities_and_duplicates() {
    let mut state = SlaveState::default();
    assert_eq!(*state.local_capabilities(), PeerCapabilities::default());
    let caps = PeerCapabilities {
        screen_capture: false,
        ..Default::default()
    };
    state.set_local_capabilities(caps);
    assert_eq!(*state.local_capabilities(), caps);
    assert!(state.register_task(7));
    assert!(!state.register_task(7));
    assert_eq!(state.active_task_count(), 1);
    assert_eq!(state.active_task_ids(), vec![7]);
    assert!(state.complete_task(7));
    assert!(!state.complete_task(7));
    assert!(state.active_task_ids().is_empty());
}
