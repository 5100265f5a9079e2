use sidecar_supervisor::{SidecarState, SpawnError};
use std::sync::Mutex;

#[test]
fn new_state_tracks_nothing() {
    let state: SidecarState<u32> = SidecarState::new();
    assert!(!state.has_child());
}

#[test]
fn launched_child_is_stored_and_listened_to() {
    let mut state: SidecarState<u32> = SidecarState::new();
    assert!(state.on_spawn(Ok(41)));
    assert!(state.has_child());
    assert_eq!(state.shutdown(), Some(41));
    assert!(!state.has_child());
}

#[test]
fn spawn_then_shutdown_requests_termination_once() {
    let mut state: SidecarState<u32> = SidecarState::new();
    let mut requests = Vec::new();
    for handle in [1u32, 2, 3] {
        assert!(state.on_spawn(Ok(handle)));
        for _ in 0..3 {
            if let Some(h) = state.shutdown() {
                requests.push(h);
            }
        }
    }
    assert_eq!(requests, vec![1, 2, 3]);
}

#[test]
fn later_launch_replaces_tracked_handle() {
    let mut state: SidecarState<u32> = SidecarState::new();
    assert!(state.on_spawn(Ok(1)));
    assert!(state.on_spawn(Ok(2)));
    assert_eq!(state.shutdown(), Some(2));
    assert_eq!(state.shutdown(), None);
}

#[test]
fn missing_executable_leaves_state_empty() {
    let mut state: SidecarState<u32> = SidecarState::new();
    let listen = state.on_spawn(Err(SpawnError::CommandNotCreated("no binary".to_string())));
    assert!(!listen);
    assert!(!state.has_child());
    assert_eq!(state.shutdown(), None);
}

#[test]
fn refused_launch_leaves_state_empty() {
    let mut state: SidecarState<u32> = SidecarState::new();
    let listen = state.on_spawn(Err(SpawnError::LaunchFailed("permission denied".to_string())));
    assert!(!listen);
    assert!(!state.has_child());
}

#[test]
fn failed_launch_keeps_earlier_handle() {
    let mut state: SidecarState<u32> = SidecarState::new();
    assert!(state.on_spawn(Ok(7)));
    assert!(!state.on_spawn(Err(SpawnError::LaunchFailed("busy".to_string()))));
    assert_eq!(state.shutdown(), Some(7));
}

#[test]
fn shutdown_before_spawn_is_noop() {
    let mut state: SidecarState<u32> = SidecarState::new();
    assert_eq!(state.shutdown(), None);
    assert!(!state.has_child());
    assert!(state.on_spawn(Ok(5)));
    assert_eq!(state.shutdown(), Some(5));
}

#[test]
fn shutdown_after_shutdown_is_noop() {
    let mut state: SidecarState<u32> = SidecarState::new();
    assert!(state.on_spawn(Ok(9)));
    assert_eq!(state.shutdown(), Some(9));
    assert_eq!(state.shutdown(), None);
    assert!(!state.has_child());
}

#[test]
fn racing_shutdowns_issue_one_request() {
    let state: Mutex<SidecarState<u32>> = Mutex::new(SidecarState::new());
    assert!(state.lock().unwrap().on_spawn(Ok(12)));
    let first = state.lock().unwrap().shutdown();
    let second = state.lock().unwrap().shutdown();
    let issued: Vec<u32> = [first, second].into_iter().flatten().collect();
    assert_eq!(issued, vec![12]);
}
