use ghc::device::{login_start, parse_device_authorization};
use ghc::error::LoginError;
use ghc::login::{login_event, LOGIN_EVENT};
use ghc::poll::{
    classify_fields, classify_token_response, poll_start, poll_step, PollReply, PollState,
    PollStep, MAX_POLL_ATTEMPTS,
};
use ghc::credential::{resolve_token, store_token_in};

fn step(state: &PollState, body: &str) -> PollStep {
    let reply = classify_token_response(body.as_bytes()).expect("token response is JSON");
    poll_step(state, reply)
}

fn again(s: PollStep) -> PollState {
    match s {
        PollStep::Again(n) => n,
        PollStep::Done(r) => panic!("polling stopped early: {:?}", r),
    }
}

#[test]
fn device_code_response_starts_login() {
    let body = br#"{"device_code":"D1","user_code":"ABCD-1234","verification_uri":"https://example.com/device","expires_in":900,"interval":5}"#;
    let device = parse_device_authorization(body).expect("complete response");
    assert_eq!(device.device_code, "D1");
    assert_eq!(device.verification_uri_complete, None);
    let start = login_start(&device);
    assert_eq!(start.auth_url, "https://example.com/device");
    assert_eq!(start.user_code, "ABCD-1234");
    assert_eq!(start.expires_in, 900);
    assert_eq!(start.interval, 5);
}

#[test]
fn complete_uri_is_preferred() {
    let body = br#"{"device_code":"D2","user_code":"WXYZ-0000","verification_uri":"https://example.com/device","verification_uri_complete":"https://example.com/device?code=WXYZ-0000","expires_in":600,"interval":10}"#;
    let device = parse_device_authorization(body).unwrap();
    let start = login_start(&device);
    assert_eq!(start.auth_url, "https://example.com/device?code=WXYZ-0000");
    assert_eq!(start.interval, 10);
}

#[test]
fn device_code_response_missing_field_is_protocol_error() {
    let body = br#"{"device_code":"D1","user_code":"ABCD-1234","expires_in":900,"interval":5}"#;
    match parse_device_authorization(body) {
        Err(LoginError::Protocol(m)) => assert_eq!(
            m,
            "Failed to parse device code response: missing or invalid field `verification_uri`"
        ),
        other => panic!("unexpected {:?}", other),
    }
    let mistyped = br#"{"device_code":"D1","user_code":"ABCD-1234","verification_uri":"https://example.com/device","expires_in":"900","interval":5}"#;
    match parse_device_authorization(mistyped) {
        Err(LoginError::Protocol(m)) => assert_eq!(
            m,
            "Failed to parse device code response: missing or invalid field `expires_in`"
        ),
        other => panic!("unexpected {:?}", other),
    }
}

#[test]
fn device_code_response_not_json_carries_parser_reason() {
    match parse_device_authorization(b"not json") {
        Err(LoginError::Protocol(m)) => {
            let prefix = "Failed to parse device code response: ";
            assert!(m.starts_with(prefix));
            assert!(m.len() > prefix.len());
            assert!(m.contains("line 1"));
        }
        other => panic!("unexpected {:?}", other),
    }
}

#[test]
fn complete_uri_of_wrong_type_is_rejected() {
    let body = br#"{"device_code":"D1","user_code":"U","verification_uri":"https://example.com/device","verification_uri_complete":5,"expires_in":900,"interval":5}"#;
    match parse_device_authorization(body) {
        Err(LoginError::Protocol(m)) => assert_eq!(
            m,
            "Failed to parse device code response: invalid field `verification_uri_complete`"
        ),
        other => panic!("unexpected {:?}", other),
    }
    let null_body = br#"{"device_code":"D1","user_code":"U","verification_uri":"https://example.com/device","verification_uri_complete":null,"expires_in":900,"interval":5}"#;
    let device = parse_device_authorization(null_body).expect("null counts as absent");
    assert_eq!(device.verification_uri_complete, None);
}

#[test]
fn pending_pending_token_saves_and_resolves() {
    let s0 = poll_start(5);
    let s1 = again(step(&s0, r#"{"error":"authorization_pending"}"#));
    let s2 = again(step(&s1, r#"{"error":"authorization_pending"}"#));
    let token = match step(&s2, r#"{"access_token":"tok_abc123","token_type":"bearer"}"#) {
        PollStep::Done(Ok(t)) => t,
        other => panic!("unexpected {:?}", other),
    };
    assert_eq!(token, "tok_abc123");
    let file = store_token_in("", &token);
    let event = login_event(&Ok(()));
    assert_eq!(event.status, "ok");
    assert!(event.message.contains("saved"));
    assert_eq!(resolve_token(None, Some(&file)), Some("tok_abc123".to_string()));
}

#[test]
fn expired_token_notifies_error() {
    let s0 = poll_start(5);
    let out = step(&s0, r#"{"error":"expired_token"}"#);
    assert_eq!(out, PollStep::Done(Err(LoginError::Expired)));
    let event = match out {
        PollStep::Done(Err(e)) => login_event(&Err(e)),
        _ => unreachable!(),
    };
    assert_eq!(event.status, "error");
    assert_eq!(event.message, "Device code expired. Please try again.");
}

#[test]
fn token_wins_over_any_number_of_pending_answers() {
    let mut s = poll_start(1);
    for _ in 0..50 {
        s = again(step(&s, r#"{"error":"authorization_pending"}"#));
    }
    assert_eq!(s.attempts, 50);
    assert_eq!(
        step(&s, r#"{"access_token":"abc","error":"slow_down"}"#),
        PollStep::Done(Ok("abc".to_string()))
    );
}

#[test]
fn slow_down_adds_five_seconds_each_time() {
    let mut s = poll_start(7);
    assert_eq!(s.wait_secs, 7);
    for k in 1..=10u64 {
        let before = s.wait_secs;
        s = again(step(&s, r#"{"error":"slow_down"}"#));
        assert_eq!(s.wait_secs, 7 + 5 * k);
        assert!(s.wait_secs >= before);
    }
    s = again(step(&s, r#"{"error":"authorization_pending"}"#));
    assert_eq!(s.wait_secs, 57);
}

#[test]
fn wait_starts_at_five_seconds_at_least() {
    assert_eq!(poll_start(0).wait_secs, 5);
    assert_eq!(poll_start(3).wait_secs, 5);
    assert_eq!(poll_start(5).wait_secs, 5);
    assert_eq!(poll_start(12).wait_secs, 12);
    assert_eq!(poll_start(0).attempts, 0);
}

#[test]
fn slow_down_saturates_at_the_largest_wait() {
    let s = PollState { wait_secs: u64::MAX - 2, attempts: 0 };
    assert_eq!(
        poll_step(&s, PollReply::SlowDown),
        PollStep::Again(PollState { wait_secs: u64::MAX, attempts: 1 })
    );
}

#[test]
fn times_out_after_exactly_120_requests() {
    let mut s = poll_start(5);
    let mut requests = 0u32;
    let outcome = loop {
        requests += 1;
        let body = if requests % 3 == 0 { r#"{"error":"slow_down"}"# } else { "{}" };
        match step(&s, body) {
            PollStep::Again(n) => s = n,
            PollStep::Done(r) => break r,
        }
    };
    assert_eq!(requests, MAX_POLL_ATTEMPTS);
    assert_eq!(requests, 120);
    assert_eq!(outcome, Err(LoginError::TimedOut));
    assert_eq!(LoginError::TimedOut.message(), "Login timed out. Please try again.");
}

#[test]
fn classification_of_error_codes() {
    assert_eq!(classify_fields(None, Some("access_denied".to_string())), PollReply::Denied);
    assert_eq!(classify_fields(None, Some("expired_token".to_string())), PollReply::Expired);
    assert_eq!(classify_fields(None, Some("slow_down".to_string())), PollReply::SlowDown);
    assert_eq!(
        classify_fields(None, Some("authorization_pending".to_string())),
        PollReply::Pending
    );
    assert_eq!(
        classify_fields(None, Some("unsupported_grant_type".to_string())),
        PollReply::Failed("unsupported_grant_type".to_string())
    );
    assert_eq!(classify_fields(None, None), PollReply::Undecided);
    assert_eq!(
        classify_fields(Some("t".to_string()), Some("access_denied".to_string())),
        PollReply::Granted("t".to_string())
    );
}

#[test]
fn token_response_fields_are_read_from_json() {
    assert_eq!(
        classify_token_response(br#"{"error":"access_denied"}"#),
        Ok(PollReply::Denied)
    );
    assert_eq!(classify_token_response(b"[1,2]"), Ok(PollReply::Undecided));
    assert_eq!(
        classify_token_response(br#"{"access_token":null,"error":"x"}"#),
        Ok(PollReply::Failed("x".to_string()))
    );
    match classify_token_response(b"<html>") {
        Err(LoginError::Protocol(m)) => {
            let prefix = "Failed to parse token response: ";
            assert!(m.starts_with(prefix));
            assert!(m.len() > prefix.len());
            assert!(m.contains("line 1"));
        }
        other => panic!("unexpected {:?}", other),
    }
}

#[test]
fn error_messages() {
    let s = poll_start(5);
    let denied = match poll_step(&s, PollReply::Denied) {
        PollStep::Done(Err(e)) => e,
        other => panic!("unexpected {:?}", other),
    };
    assert_eq!(denied.message(), "Access denied. Please try again.");
    let other = match poll_step(&s, PollReply::Failed("bad_verification_code".to_string())) {
        PollStep::Done(Err(e)) => e,
        other => panic!("unexpected {:?}", other),
    };
    assert_eq!(other.message(), "OAuth error: bad_verification_code");
    assert_eq!(LoginError::Network("Failed to poll token: refused".to_string()).message(),
        "Failed to poll token: refused");
    let io = login_event(&Err(LoginError::Io("Failed to write ~/.env: denied".to_string())));
    assert_eq!(io.status, "error");
    assert_eq!(io.message, "Failed to write ~/.env: denied");
    assert_eq!(LOGIN_EVENT, "github-login-complete");
}
