use synapse_core::readiness::{ledger_probe_url, DrainReply, InitializationError, ReadinessState};

#[test]
fn test_readiness_initial_state() {
    let state = ReadinessState::new();
    assert!(!state.is_ready(), "Initial state should be NOT READY");
    assert!(!state.is_draining());
}

#[test]
fn test_set_not_ready() {
    let mut state = ReadinessState::new();
    state.set_not_ready();
    assert!(!state.is_ready());
    assert!(state.is_draining());
}

#[test]
fn test_set_ready() {
    let mut state = ReadinessState::new();
    state.set_not_ready();
    state.set_ready();
    assert!(state.is_ready());
    assert!(!state.is_draining());
}

#[test]
fn test_drain_timeout() {
    let state = ReadinessState::with_drain_timeout(60);
    assert_eq!(state.drain_timeout().as_secs(), 60);
}

#[test]
fn test_default_drain_timeout() {
    let state = ReadinessState::new();
    assert_eq!(state.drain_timeout().as_secs(), 30);
}

#[test]
fn start_drain_marks_not_ready_and_returns_timeout() {
    let mut state = ReadinessState::with_drain_timeout(12);
    state.set_ready();
    let d = state.start_drain();
    assert_eq!(d.as_secs(), 12);
    assert!(!state.is_ready());
    assert!(state.is_draining());
    assert_eq!(state.drain_timeout_secs(), 12);
}

#[test]
fn default_matches_new() {
    let a = ReadinessState::default();
    assert!(!a.is_ready());
    assert_eq!(a.drain_timeout_secs(), 30);
}

#[test]
fn initialization_tolerates_cache_and_ledger_failures() {
    let mut state = ReadinessState::new();
    let r = state.complete_initialization(Err("redis down".to_string()), Err("horizon down".to_string()), Ok(()));
    assert!(r.is_ok());
    assert!(state.is_ready());
    assert!(!state.is_draining());
}

#[test]
fn initialization_fails_on_database_failure() {
    let mut state = ReadinessState::new();
    let r = state.complete_initialization(Ok(()), Ok(()), Err("connection refused".to_string()));
    let e = r.unwrap_err();
    assert_eq!(e, InitializationError::DatabaseCheck("connection refused".to_string()));
    assert_eq!(e.to_string(), "Database check failed: connection refused");
    assert!(!state.is_ready());
}

#[test]
fn ledger_probe_url_has_one_trailing_slash() {
    assert_eq!(ledger_probe_url("https://horizon.stellar.org"), "https://horizon.stellar.org/");
    assert_eq!(ledger_probe_url("https://horizon.stellar.org///"), "https://horizon.stellar.org/");
    assert_eq!(ledger_probe_url(""), "/");
}

#[test]
fn drain_request_starts_once() {
    let mut state = ReadinessState::with_drain_timeout(15);
    state.set_ready();
    assert_eq!(state.request_drain(), DrainReply::Draining { drain_timeout_secs: 15 });
    assert!(!state.is_ready());
    assert!(state.is_draining());
    assert_eq!(state.request_drain(), DrainReply::AlreadyDraining { drain_timeout_secs: 15 });
}

#[test]
fn drain_wait_only_when_not_ready() {
    let mut state = ReadinessState::with_drain_timeout(7);
    assert_eq!(state.drain_wait(), Some(std::time::Duration::from_secs(7)));
    state.set_ready();
    assert_eq!(state.drain_wait(), None);
}
