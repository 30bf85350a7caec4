use std::sync::Arc;
use slack_app::ack::Ack;
use slack_app::listener::{EventRouter, HandlerOutcome, respond};
use slack_app::pipeline::{oauth_callback_action, prepare, OAuthAction, Prepared};
use slack_app::request::{SlackRequest, SlackRequestBody, OAuthRequest};
use slack_app::response::{SlackResponse, SlackResponseBody};
use slack_app::signature::sign_request;

type Handler = fn(&SlackRequest) -> HandlerOutcome;

const SECRET: &str = "8f742231b10e8888abcd99yyyzzz85a5";

fn signed_headers(content_type: &str, ts: &str, body: &str) -> Vec<(String, String)> {
    let sig = sign_request(SECRET, ts, body);
    vec![
        ("Content-Type".to_string(), content_type.to_string()),
        ("X-Slack-Request-Timestamp".to_string(), ts.to_string()),
        ("X-Slack-Signature".to_string(), sig),
    ]
}

fn never(_request: &SlackRequest) -> HandlerOutcome {
    panic!("no handler may run for a challenge");
}

fn hello_handler(request: &SlackRequest) -> HandlerOutcome {
    let mut ack = Ack::new(Arc::new(SlackRequest {
        method: request.method.clone(),
        path: request.path.clone(),
        headers: Vec::new(),
        query_params: Vec::new(),
        body: SlackRequestBody::Raw(String::new()),
    }));
    match ack.text("Hello!".to_string()) {
        Ok(resp) => {
            assert!(ack.is_acknowledged());
            HandlerOutcome::Acked(resp)
        },
        Err(_) => HandlerOutcome::Failed,
    }
}

#[test]
fn end_to_end_command_dispatch() {
    // POST form body with a valid signature and a registered /hello handler
    // that acks "Hello!" yields {text: "Hello!", response_type: null} at 200.
    let body = "token=t&command=/hello&text=&channel_id=C1&user_id=U1&response_url=R&trigger_id=T1";
    let headers = signed_headers("application/x-www-form-urlencoded", "1531420618", body);
    let mut router: EventRouter<Handler> = EventRouter::new();
    router.add_command_handler("/hello".to_string(), hello_handler);
    let prepared = prepare(
        &router,
        SECRET,
        "POST".to_string(),
        "/slack/events".to_string(),
        headers,
        Vec::new(),
        body,
    );
    let (request, refs) = match prepared {
        Prepared::Run(request, refs) => (request, refs),
        _ => panic!("expected a run plan"),
    };
    match &request.body {
        SlackRequestBody::Command(c) => {
            assert_eq!(c.command, "/hello");
            assert_eq!(c.channel_id, "C1");
        },
        _ => panic!("expected a Command body"),
    }
    let mut outcomes = Vec::new();
    for r in &refs {
        let h = router.handler(r).expect("plan references a registered handler");
        outcomes.push(h(&request));
    }
    let resp = respond(outcomes);
    assert_eq!(resp.status_code, 200);
    match resp.body {
        SlackResponseBody::Text(t) => {
            assert_eq!(t.text, "Hello!");
            assert!(t.response_type.is_none());
        },
        _ => panic!("expected a text body"),
    }
}

#[test]
fn invalid_signature_is_rejected_with_401() {
    let body = "token=t&command=/hello";
    let mut headers = signed_headers("application/x-www-form-urlencoded", "123", body);
    headers[2].1 = "v0=0000000000000000000000000000000000000000000000000000000000000000"
        .to_string();
    let router: EventRouter<Handler> = EventRouter::new();
    let prepared = prepare(
        &router,
        SECRET,
        "POST".to_string(),
        "/".to_string(),
        headers,
        Vec::new(),
        body,
    );
    match prepared {
        Prepared::Respond(resp) => {
            assert_eq!(resp.status_code, 401);
            assert!(matches!(resp.body, SlackResponseBody::Empty));
        },
        _ => panic!("expected an immediate 401"),
    }
}

#[test]
fn missing_signature_headers_are_rejected_with_401() {
    let body = "token=t&command=/hello";
    let headers = vec![(
        "Content-Type".to_string(),
        "application/x-www-form-urlencoded".to_string(),
    )];
    let router: EventRouter<Handler> = EventRouter::new();
    let prepared = prepare(
        &router,
        SECRET,
        "POST".to_string(),
        "/".to_string(),
        headers,
        Vec::new(),
        body,
    );
    assert!(matches!(prepared, Prepared::Respond(r) if r.status_code == 401));
}

#[test]
fn challenge_is_echoed_with_no_handler_invoked() {
    // the canonical verification request: the response carries the same
    // challenge string, and no other member is needed for it
    let body = "{\"type\":\"url_verification\",\"challenge\":\"abc123\"}";
    let headers = signed_headers("application/json", "1531420618", body);
    let mut router: EventRouter<Handler> = EventRouter::new();
    router.add_event_handler("url_verification".to_string(), never);
    let prepared = prepare(
        &router,
        SECRET,
        "POST".to_string(),
        "/".to_string(),
        headers,
        Vec::new(),
        body,
    );
    match prepared {
        Prepared::Respond(resp) => {
            assert_eq!(resp.status_code, 200);
            match resp.body {
                SlackResponseBody::Challenge(c) => assert_eq!(c.challenge, "abc123"),
                _ => panic!("expected a challenge echo"),
            }
        },
        _ => panic!("expected an immediate response"),
    }
}

#[test]
fn malformed_json_yields_400() {
    let body = "{broken";
    let headers = signed_headers("application/json", "1", body);
    let router: EventRouter<Handler> = EventRouter::new();
    let prepared = prepare(
        &router,
        SECRET,
        "POST".to_string(),
        "/".to_string(),
        headers,
        Vec::new(),
        body,
    );
    assert!(matches!(prepared, Prepared::Respond(r) if r.status_code == 400));
}

#[test]
fn oauth_callback_is_handed_to_the_flow() {
    let body = "code=abc&state=xyz";
    let headers = signed_headers("application/x-www-form-urlencoded", "1", body);
    let router: EventRouter<Handler> = EventRouter::new();
    let prepared = prepare(
        &router,
        SECRET,
        "GET".to_string(),
        "/oauth".to_string(),
        headers,
        Vec::new(),
        body,
    );
    let request = match prepared {
        Prepared::OAuthCallback(request) => request,
        _ => panic!("expected the OAuth hand-off"),
    };
    match &request.body {
        SlackRequestBody::OAuth(o) => {
            let action = oauth_callback_action(o);
            match action {
                OAuthAction::Complete(code, state) => {
                    assert_eq!(code, "abc");
                    assert_eq!(state, "xyz");
                },
                _ => panic!("expected a completion action"),
            }
        },
        _ => panic!("expected an OAuth body"),
    }
}

#[test]
fn raw_body_yields_an_empty_200() {
    let body = "unrecognized";
    let headers = signed_headers("text/plain", "1", body);
    let router: EventRouter<Handler> = EventRouter::new();
    let prepared = prepare(
        &router,
        SECRET,
        "POST".to_string(),
        "/".to_string(),
        headers,
        Vec::new(),
        body,
    );
    match prepared {
        Prepared::Respond(resp) => {
            assert_eq!(resp.status_code, 200);
            assert!(matches!(resp.body, SlackResponseBody::Empty));
        },
        _ => panic!("expected an immediate empty response"),
    }
}

#[test]
fn oauth_error_action_echoes_only_the_upstream_string() {
    let o = OAuthRequest {
        code: None,
        state: None,
        error: Some("access_denied".to_string()),
    };
    match oauth_callback_action(&o) {
        OAuthAction::Fail(m) => assert_eq!(m, "OAuth error: access_denied"),
        _ => panic!("expected a failure action"),
    }
}

#[test]
fn oauth_callback_without_code_starts_the_flow() {
    let o = OAuthRequest { code: None, state: None, error: None };
    assert!(matches!(oauth_callback_action(&o), OAuthAction::Start));
}

#[test]
fn response_constructors_match_the_protocol() {
    let e = SlackResponse::empty();
    assert_eq!(e.status_code, 200);
    let t = SlackResponse::text("hi".to_string());
    assert_eq!(t.status_code, 200);
    let c = SlackResponse::challenge("ch".to_string());
    assert_eq!(c.status_code, 200);
    let r = SlackResponse::redirect("https://slack.com/oauth/v2/authorize".to_string());
    assert_eq!(r.status_code, 302);
    assert_eq!(r.headers[0].0, "Location");
    assert_eq!(r.headers[0].1, "https://slack.com/oauth/v2/authorize");
}

#[test]
fn ack_guard_transitions_once() {
    let request = Arc::new(SlackRequest {
        method: "POST".to_string(),
        path: "/".to_string(),
        headers: Vec::new(),
        query_params: Vec::new(),
        body: SlackRequestBody::Raw(String::new()),
    });
    let mut ack = Ack::new(request);
    assert!(!ack.is_acknowledged());
    let first = ack.ephemeral("only you".to_string()).unwrap();
    assert!(ack.is_acknowledged());
    match first.body {
        SlackResponseBody::Text(t) => {
            assert_eq!(t.response_type.as_deref(), Some("ephemeral"));
        },
        _ => panic!("expected a text body"),
    }
    // a second acknowledgment is a protocol no-op: the guard stays set
    let _second = ack.in_channel("everyone".to_string()).unwrap();
    assert!(ack.is_acknowledged());
}
