use slack_app::classify::classify_body;
use slack_app::listener::{
    respond, EventRouter, HandlerOutcome, HandlerRef, RoutePlan,
};
use slack_app::request::SlackRequestBody;
use slack_app::response::{SlackResponseBody, SlackResponse};

type Handler = fn() -> HandlerOutcome;

fn event_body(event_type: &str, challenge: Option<&str>) -> SlackRequestBody {
    let challenge_part = match challenge {
        Some(c) => format!(",\"challenge\":\"{}\"", c),
        None => String::new(),
    };
    let body = format!(
        "{{\"token\":\"t\",\"team_id\":\"T\",\"api_app_id\":\"A\",\"event\":{{}},\"event_type\":\"{}\",\"event_time\":1{}}}",
        event_type, challenge_part
    );
    classify_body("application/json", &body).unwrap()
}

fn command_body(command: &str) -> SlackRequestBody {
    let body = format!("token=t&command={}", command);
    classify_body("application/x-www-form-urlencoded", &body).unwrap()
}

fn noop() -> HandlerOutcome {
    HandlerOutcome::NoResponse
}

#[test]
fn challenge_short_circuits_before_any_lookup() {
    let mut router: EventRouter<Handler> = EventRouter::new();
    router.add_event_handler("url_verification".to_string(), noop);
    let plan = router.route_request(&event_body("url_verification", Some("abc123")));
    match plan {
        RoutePlan::Challenge(c) => assert_eq!(c, "abc123"),
        _ => panic!("expected the challenge short-circuit"),
    }
}

#[test]
fn empty_challenge_does_not_short_circuit() {
    let router: EventRouter<Handler> = EventRouter::new();
    let plan = router.route_request(&event_body("app_mention", Some("")));
    assert!(matches!(plan, RoutePlan::Invoke(v) if v.is_empty()));
}

#[test]
fn event_routing_matches_by_type_in_registration_order() {
    let mut router: EventRouter<Handler> = EventRouter::new();
    router.add_event_handler("app_mention".to_string(), noop);
    router.add_event_handler("reaction_added".to_string(), noop);
    router.add_event_handler("app_mention".to_string(), noop);
    match router.route_request(&event_body("app_mention", None)) {
        RoutePlan::Invoke(refs) => {
            assert_eq!(refs, vec![HandlerRef::Event(0), HandlerRef::Event(2)]);
        },
        _ => panic!("expected an invocation plan"),
    }
}

#[test]
fn message_events_also_run_message_handlers() {
    let mut router: EventRouter<Handler> = EventRouter::new();
    router.add_event_handler("message".to_string(), noop);
    router.add_message_handler(noop);
    router.add_message_handler(noop);
    match router.route_request(&event_body("message", None)) {
        RoutePlan::Invoke(refs) => {
            assert_eq!(
                refs,
                vec![HandlerRef::Event(0), HandlerRef::Message(0), HandlerRef::Message(1)]
            );
        },
        _ => panic!("expected an invocation plan"),
    }
}

#[test]
fn command_routing_matches_the_command_name() {
    let mut router: EventRouter<Handler> = EventRouter::new();
    router.add_command_handler("/hello".to_string(), noop);
    router.add_command_handler("/bye".to_string(), noop);
    match router.route_request(&command_body("/bye")) {
        RoutePlan::Invoke(refs) => assert_eq!(refs, vec![HandlerRef::Command(1)]),
        _ => panic!("expected an invocation plan"),
    }
}

#[test]
fn unmatched_request_is_not_an_error() {
    let router: EventRouter<Handler> = EventRouter::new();
    match router.route_request(&command_body("/nope")) {
        RoutePlan::Invoke(refs) => assert!(refs.is_empty()),
        _ => panic!("expected an empty plan"),
    }
}

#[test]
fn interactive_actions_dispatch_per_action_in_array_order() {
    let payload = "{\"token\":\"t\",\"team\":{},\"user\":{},\"actions\":[{\"action_id\":\"b\"},{\"action_id\":\"a\"}],\"trigger_id\":\"Tr\",\"response_url\":\"R\"}";
    let encoded: String = payload.bytes().map(|b| format!("%{:02X}", b)).collect();
    let body = format!("payload={}", encoded);
    let classified = classify_body("application/x-www-form-urlencoded", &body).unwrap();
    let mut router: EventRouter<Handler> = EventRouter::new();
    router.add_action_handler("a".to_string(), noop);
    router.add_action_handler("b".to_string(), noop);
    router.add_action_handler("a".to_string(), noop);
    match router.route_request(&classified) {
        RoutePlan::Invoke(refs) => {
            // action "b" first (array order), then both handlers for "a".
            assert_eq!(
                refs,
                vec![HandlerRef::Action(1), HandlerRef::Action(0), HandlerRef::Action(2)]
            );
        },
        _ => panic!("expected an invocation plan"),
    }
}

#[test]
fn shortcut_dispatches_on_callback_id_without_actions() {
    let payload = "{\"token\":\"t\",\"team\":{},\"user\":{},\"actions\":[],\"callback_id\":\"open_modal\",\"trigger_id\":\"Tr\",\"response_url\":\"R\"}";
    let encoded: String = payload.bytes().map(|b| format!("%{:02X}", b)).collect();
    let body = format!("payload={}", encoded);
    let classified = classify_body("application/x-www-form-urlencoded", &body).unwrap();
    let mut router: EventRouter<Handler> = EventRouter::new();
    router.add_shortcut_handler("open_modal".to_string(), noop);
    match router.route_request(&classified) {
        RoutePlan::Invoke(refs) => assert_eq!(refs, vec![HandlerRef::Shortcut(0)]),
        _ => panic!("expected an invocation plan"),
    }
}

#[test]
fn first_acknowledgment_wins() {
    let outcomes = vec![
        HandlerOutcome::NoResponse,
        HandlerOutcome::Acked(SlackResponse::text("first".to_string())),
        HandlerOutcome::Acked(SlackResponse::text("second".to_string())),
    ];
    let resp = respond(outcomes);
    assert_eq!(resp.status_code, 200);
    match resp.body {
        SlackResponseBody::Text(t) => assert_eq!(t.text, "first"),
        _ => panic!("expected a text body"),
    }
}

fn handler_a() -> HandlerOutcome {
    HandlerOutcome::Failed
}

fn handler_b() -> HandlerOutcome {
    HandlerOutcome::Acked(SlackResponse::text("from B".to_string()))
}

#[test]
fn failed_handler_does_not_abort_siblings() {
    // Handler A (registered first) raises; handler B still executes and its
    // result is used.
    let mut router: EventRouter<Handler> = EventRouter::new();
    router.add_command_handler("/x".to_string(), handler_a);
    router.add_command_handler("/x".to_string(), handler_b);
    let plan = router.route_request(&command_body("/x"));
    let refs = match plan {
        RoutePlan::Invoke(refs) => refs,
        _ => panic!("expected an invocation plan"),
    };
    let mut outcomes = Vec::new();
    for r in &refs {
        let h = router.handler(r).expect("plan references a registered handler");
        outcomes.push(h());
    }
    let resp = respond(outcomes);
    assert_eq!(resp.status_code, 200);
    match resp.body {
        SlackResponseBody::Text(t) => assert_eq!(t.text, "from B"),
        _ => panic!("expected a text body"),
    }
}

#[test]
fn all_failed_yields_a_generic_failure() {
    let outcomes = vec![HandlerOutcome::Failed, HandlerOutcome::Failed];
    let resp = respond(outcomes);
    assert_eq!(resp.status_code, 500);
    match resp.body {
        SlackResponseBody::Text(t) => assert_eq!(t.text, "Internal Server Error"),
        _ => panic!("expected a text body"),
    }
}

#[test]
fn no_outcomes_yield_an_empty_200() {
    let resp = respond(Vec::new());
    assert_eq!(resp.status_code, 200);
    assert!(matches!(resp.body, SlackResponseBody::Empty));
}

#[test]
fn silent_handlers_yield_an_empty_200() {
    let outcomes = vec![HandlerOutcome::NoResponse, HandlerOutcome::Failed];
    let resp = respond(outcomes);
    assert_eq!(resp.status_code, 200);
    assert!(matches!(resp.body, SlackResponseBody::Empty));
}
