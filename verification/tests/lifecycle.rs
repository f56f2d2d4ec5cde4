use sonify::lifecycle::{SessionControl, SessionPhase};

#[test]
fn fresh_session_is_idle() {
    let s = SessionControl::new();
    assert_eq!(s.phase, SessionPhase::Idle);
}

#[test]
fn start_then_stop_then_join() {
    let mut s = SessionControl::new();
    s.start();
    assert_eq!(s.phase, SessionPhase::Running);
    assert!(s.stop());
    assert_eq!(s.phase, SessionPhase::StopRequested);
    assert!(s.join());
    assert_eq!(s.phase, SessionPhase::Joined);
}

#[test]
fn stop_is_idempotent() {
    let mut s = SessionControl::new();
    s.start();
    assert!(s.stop());
    assert!(!s.stop());
    assert_eq!(s.phase, SessionPhase::StopRequested);
}

#[test]
fn stop_before_start_does_nothing() {
    let mut s = SessionControl::new();
    assert!(!s.stop());
    assert_eq!(s.phase, SessionPhase::Idle);
}

#[test]
fn second_join_is_spent() {
    let mut s = SessionControl::new();
    s.start();
    s.stop();
    assert!(s.join());
    assert!(!s.join());
    assert_eq!(s.phase, SessionPhase::Joined);
}

#[test]
fn stop_after_join_does_nothing() {
    let mut s = SessionControl::new();
    s.start();
    s.stop();
    s.join();
    assert!(!s.stop());
    assert_eq!(s.phase, SessionPhase::Joined);
}
