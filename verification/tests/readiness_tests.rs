use filesmind_launcher::readiness::{
    auth_header_name, probe_terminal_event, ready_url, BackendEvent, PollDecision, PollResponse,
    ProbeState, STARTUP_READY_TIMEOUT_SEC,
};

#[test]
fn ready_request_targets_ready_path_with_token_header() {
    assert_eq!(ready_url("http://127.0.0.1:8080"), "http://127.0.0.1:8080/ready");
    assert_eq!(auth_header_name(), "X-FilesMind-Token");
}

#[test]
fn backoff_sequence_is_150_300_600_1200_then_2000() {
    let mut probe = ProbeState::new();
    let timeout_ms = STARTUP_READY_TIMEOUT_SEC * 1000;
    let expected: Vec<u64> = vec![150, 300, 600, 1200, 2000, 2000, 2000];
    for want in expected {
        let d = probe.poll_step(PollResponse::NotReady, 0, timeout_ms);
        assert_eq!(d, PollDecision::RetryAfter { sleep_ms: want });
    }
}

#[test]
fn success_on_first_poll_emits_single_ready_event() {
    let mut probe = ProbeState::new();
    let d = probe.poll_step(PollResponse::Success, 10, 60000);
    assert_eq!(d, PollDecision::Ready);
    let event = probe_terminal_event(&d);
    match event {
        Some(BackendEvent::Ready) => {}
        _ => panic!("expected a ready event"),
    }
    let event = probe_terminal_event(&d).unwrap();
    assert_eq!(event.name(), "backend-ready");
    assert!(event.ready_flag());
}

#[test]
fn timeout_emits_failed_event() {
    let mut probe = ProbeState::new();
    let d = probe.poll_step(PollResponse::NotReady, 60001, 60000);
    assert_eq!(d, PollDecision::TimedOut);
    let event = probe_terminal_event(&d).unwrap();
    assert_eq!(event.name(), "backend-failed");
    assert!(!event.ready_flag());
    match event {
        BackendEvent::Failed { error } => {
            assert!(!error.is_empty());
            assert_eq!(error, "backend readiness timeout");
        }
        BackendEvent::Ready => panic!("expected a failure event"),
    }
}

#[test]
fn retry_produces_no_event() {
    let mut probe = ProbeState::new();
    let d = probe.poll_step(PollResponse::NotReady, 5, 60000);
    assert!(probe_terminal_event(&d).is_none());
}

#[test]
fn elapsed_at_timeout_boundary_still_retries() {
    let mut probe = ProbeState::new();
    let d = probe.poll_step(PollResponse::NotReady, 60000, 60000);
    assert_eq!(d, PollDecision::RetryAfter { sleep_ms: 150 });
}

#[test]
fn success_after_retries_is_terminal() {
    let mut probe = ProbeState::new();
    probe.poll_step(PollResponse::NotReady, 0, 60000);
    probe.poll_step(PollResponse::NotReady, 200, 60000);
    let d = probe.poll_step(PollResponse::Success, 700, 60000);
    assert_eq!(d, PollDecision::Ready);
}
