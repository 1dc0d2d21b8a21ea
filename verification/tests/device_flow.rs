//! The device-authorization state machine against scripted provider
//! responses, and the validator decisions.

use gitswitchhub::github_auth::{
    classify_poll_response, device_code_grant_type, evaluate_device_code_probe,
    evaluate_identity_probe, interpret_sso_probe, oauth_client_id, parse_scopes_header, poll_step,
    run_poll_script, session_from, DeviceCodeResponse, DeviceTokenResponse, GitHubAuthError,
    GitHubUser, PollStatus, PollStep, ScriptOutcome,
};

fn token(tag: &str) -> DeviceTokenResponse {
    DeviceTokenResponse {
        access_token: format!("tok-{}", tag),
        token_type: "bearer".to_string(),
        scope: "repo,user".to_string(),
    }
}

fn grant() -> DeviceCodeResponse {
    DeviceCodeResponse {
        device_code: "dev-1".to_string(),
        user_code: "ABCD-1234".to_string(),
        verification_uri: "https://github.com/login/device".to_string(),
        verification_uri_complete: "https://github.com/login/device?user_code=ABCD-1234"
            .to_string(),
        expires_in: 900,
        interval: 5,
    }
}

#[test]
fn script_two_pending_then_success() {
    let events = vec![
        PollStatus::AuthorizationPending,
        PollStatus::AuthorizationPending,
        PollStatus::Success(token("ok")),
    ];
    let r = run_poll_script(&events, 60);
    assert_eq!(r.polls, 3);
    assert_eq!(r.sleeps, 2);
    match r.outcome {
        ScriptOutcome::Finished(Ok(t)) => assert_eq!(t.access_token, "tok-ok"),
        _ => panic!("expected the grant after two pending cycles"),
    }
}

#[test]
fn script_all_pending_times_out_at_cap() {
    let mut events = Vec::new();
    let mut i = 0;
    while i < 61 {
        events.push(PollStatus::AuthorizationPending);
        i += 1;
    }
    let r = run_poll_script(&events, 60);
    assert_eq!(r.polls, 60);
    assert_eq!(r.sleeps, 60);
    assert!(matches!(
        r.outcome,
        ScriptOutcome::Finished(Err(GitHubAuthError::Timeout))
    ));
}

#[test]
fn script_denied_on_first_poll_stops_immediately() {
    let events = vec![PollStatus::AccessDenied, PollStatus::AuthorizationPending];
    let r = run_poll_script(&events, 60);
    assert_eq!(r.polls, 1);
    assert_eq!(r.sleeps, 0);
    assert!(matches!(
        r.outcome,
        ScriptOutcome::Finished(Err(GitHubAuthError::Denied))
    ));
}

#[test]
fn script_expired_token_is_terminal() {
    let events = vec![PollStatus::AuthorizationPending, PollStatus::ExpiredToken];
    let r = run_poll_script(&events, 60);
    assert_eq!(r.polls, 2);
    assert_eq!(r.sleeps, 1);
    assert!(matches!(
        r.outcome,
        ScriptOutcome::Finished(Err(GitHubAuthError::Expired))
    ));
}

#[test]
fn script_exhausted_without_terminal_awaits_more() {
    let events = vec![PollStatus::AuthorizationPending, PollStatus::Unrecognized];
    let r = run_poll_script(&events, 60);
    assert_eq!(r.polls, 2);
    assert_eq!(r.sleeps, 2);
    assert!(matches!(r.outcome, ScriptOutcome::AwaitingMore));
}

#[test]
fn classify_reads_status_tokens_in_order() {
    assert!(matches!(
        classify_poll_response(true, "", "{\"error\":\"authorization_pending\"}", None),
        PollStatus::AuthorizationPending
    ));
    assert!(matches!(
        classify_poll_response(true, "", "{\"error\":\"access_denied\"}", None),
        PollStatus::AccessDenied
    ));
    assert!(matches!(
        classify_poll_response(true, "", "{\"error\":\"expired_token\"}", None),
        PollStatus::ExpiredToken
    ));
    assert!(matches!(
        classify_poll_response(true, "", "{}", None),
        PollStatus::Unrecognized
    ));
    match classify_poll_response(true, "", "{\"access_token\":\"tok-x\"}", Some(token("x"))) {
        PollStatus::Success(t) => assert_eq!(t.access_token, "tok-x"),
        _ => panic!("expected the decoded grant"),
    }
}

#[test]
fn classify_surfaces_the_provider_error_on_failure() {
    match classify_poll_response(false, "HTTP status server error (500)", "", None) {
        PollStatus::ProviderFailure(m) => assert_eq!(m, "HTTP status server error (500)"),
        _ => panic!("expected the failed exchange to carry the provider's error"),
    }
}

#[test]
fn script_provider_failure_surfaces_its_error() {
    let events = vec![
        PollStatus::AuthorizationPending,
        PollStatus::ProviderFailure("HTTP status client error (429)".to_string()),
    ];
    let r = run_poll_script(&events, 60);
    assert_eq!(r.polls, 2);
    assert_eq!(r.sleeps, 1);
    match r.outcome {
        ScriptOutcome::Finished(Err(GitHubAuthError::Http(m))) => {
            assert_eq!(m, "HTTP status client error (429)")
        }
        _ => panic!("expected the provider's error to end the flow"),
    }
}

#[test]
fn poll_step_counts_only_pending_attempts() {
    let mut session = session_from(&grant(), 1_000);
    assert_eq!(session.max_attempts, 180);
    assert_eq!(session.interval, 5);
    assert_eq!(session.expires_at, 1_900);
    assert!(session.should_poll());
    assert!(matches!(
        poll_step(&mut session, PollStatus::AuthorizationPending),
        PollStep::Continue
    ));
    assert!(matches!(
        poll_step(&mut session, PollStatus::Unrecognized),
        PollStep::Continue
    ));
    assert_eq!(session.attempts, 2);
    match poll_step(&mut session, PollStatus::Success(token("y"))) {
        PollStep::Finished(Ok(t)) => assert_eq!(t.access_token, "tok-y"),
        _ => panic!("expected the grant to finish the flow"),
    }
    assert_eq!(session.attempts, 2);
}

#[test]
fn session_defaults_cover_missing_provider_fields() {
    let mut g = grant();
    g.interval = 0;
    g.expires_in = 0;
    let session = session_from(&g, 0);
    assert_eq!(session.interval, 5);
    assert_eq!(session.max_attempts, 60);
}

#[test]
fn device_code_probe_failures() {
    match evaluate_device_code_probe(false, "HTTP status client error (422)", Some(grant())) {
        Err(GitHubAuthError::Http(m)) => assert_eq!(m, "HTTP status client error (422)"),
        _ => panic!("expected the provider's error to be surfaced"),
    }
    assert!(matches!(
        evaluate_device_code_probe(true, "", None),
        Err(GitHubAuthError::Json(_))
    ));
    let ok = evaluate_device_code_probe(true, "", Some(grant())).unwrap();
    assert_eq!(ok.device_code, "dev-1");
}

#[test]
fn identity_probe_collapses_failures_to_invalid_token() {
    let user = GitHubUser {
        login: "alice".to_string(),
        id: 7,
        avatar_url: "https://avatars.example/alice".to_string(),
        name: None,
        email: None,
    };
    assert!(matches!(
        evaluate_identity_probe(false, Some(user)),
        Err(GitHubAuthError::InvalidToken)
    ));
    assert_eq!(
        GitHubAuthError::InvalidToken.message(),
        "Invalid token"
    );
    assert_eq!(GitHubAuthError::Timeout.message(), "Device flow timeout");
    assert_eq!(GitHubAuthError::Denied.message(), "Device flow denied");
}

#[test]
fn scopes_header_splits_and_trims() {
    let scopes = parse_scopes_header(Some("repo, user ,gist"));
    assert_eq!(scopes, vec!["repo", "user", "gist"]);
    let empty_pieces = parse_scopes_header(Some("a,,b"));
    assert_eq!(empty_pieces, vec!["a", "", "b"]);
    assert!(parse_scopes_header(None).is_empty());
}

#[test]
fn sso_probe_is_advisory_negation() {
    assert!(interpret_sso_probe(false));
    assert!(!interpret_sso_probe(true));
}

#[test]
fn request_constants_match_the_protocol() {
    assert_eq!(oauth_client_id(), "Ov23liA2BpF0gI3E4nUX");
    assert_eq!(
        device_code_grant_type(),
        "urn:ietf:params:oauth:grant-type:device_code"
    );
}
