use slack_app::error::SlackError;
use slack_app::middleware::{
    chain_decision, ChainDecision, MiddlewareOutcome, MiddlewareStack,
};
use slack_app::response::{SlackResponse, SlackResponseBody};

type Middleware = fn() -> MiddlewareOutcome;

fn pass() -> MiddlewareOutcome {
    MiddlewareOutcome::Continue
}

fn deny() -> MiddlewareOutcome {
    MiddlewareOutcome::ShortCircuit(SlackResponse::text("denied".to_string()))
}

fn boom() -> MiddlewareOutcome {
    MiddlewareOutcome::Failed(SlackError::Internal("boom".to_string()))
}

#[test]
fn registration_keeps_order() {
    let mut stack: MiddlewareStack<Middleware> = MiddlewareStack::new();
    assert_eq!(stack.len(), 0);
    stack.add(pass);
    stack.add(deny);
    assert_eq!(stack.len(), 2);
    assert!(stack.get(0).is_some());
    assert!(stack.get(2).is_none());
}

#[test]
fn all_continue_proceeds_to_the_router() {
    let outcomes = vec![MiddlewareOutcome::Continue, MiddlewareOutcome::Continue];
    assert!(matches!(chain_decision(outcomes), ChainDecision::Proceed));
}

#[test]
fn empty_chain_proceeds() {
    assert!(matches!(chain_decision(Vec::new()), ChainDecision::Proceed));
}

#[test]
fn first_short_circuit_decides() {
    let outcomes = vec![
        MiddlewareOutcome::Continue,
        MiddlewareOutcome::ShortCircuit(SlackResponse::text("mine".to_string())),
        MiddlewareOutcome::ShortCircuit(SlackResponse::text("ignored".to_string())),
    ];
    match chain_decision(outcomes) {
        ChainDecision::Respond(resp) => match resp.body {
            SlackResponseBody::Text(t) => assert_eq!(t.text, "mine"),
            _ => panic!("expected a text body"),
        },
        _ => panic!("expected a short-circuit response"),
    }
}

#[test]
fn failure_aborts_and_does_not_fall_through() {
    let outcomes = vec![
        MiddlewareOutcome::Continue,
        MiddlewareOutcome::Failed(SlackError::Internal("boom".to_string())),
        MiddlewareOutcome::ShortCircuit(SlackResponse::text("never".to_string())),
    ];
    match chain_decision(outcomes) {
        ChainDecision::Abort(SlackError::Internal(m)) => assert_eq!(m, "boom"),
        _ => panic!("expected an abort"),
    }
}

#[test]
fn chain_runs_links_in_registration_order() {
    let mut stack: MiddlewareStack<Middleware> = MiddlewareStack::new();
    stack.add(pass);
    stack.add(boom);
    stack.add(deny);
    // drive the chain the way an application would: stop at the first
    // outcome that is not Continue
    let mut outcomes = Vec::new();
    let mut i = 0;
    while let Some(mw) = stack.get(i) {
        let out = mw();
        let stops = !matches!(out, MiddlewareOutcome::Continue);
        outcomes.push(out);
        if stops {
            break;
        }
        i += 1;
    }
    assert!(matches!(chain_decision(outcomes), ChainDecision::Abort(_)));
}
