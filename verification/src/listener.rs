//! The dispatch engine: from a classified request to the handlers that must
//! run, and from their outcomes to the single protocol response.
//!
//! The router is generic over the handler representation `H`: it stores
//! whatever the application registers and never calls it. Routing returns a
//! plan — either the challenge short-circuit or the exact list of handler
//! references to invoke, in order; the caller runs the handlers and hands
//! their outcomes to [`respond`].

use vstd::prelude::*;
use vstd::string::StringExecFns;
use crate::request::{ActionModel, BodyModel, SlackRequestBody};
use crate::response::{empty_response_model, ResponseModel, SlackResponse};

verus! {

/// A reference to one registered handler: the surface it was registered on
/// and its index in that surface's registration list.
#[derive(Clone, Copy, Debug, PartialEq, Eq, Structural)]
pub enum HandlerRef {
    Event(usize),
    Command(usize),
    Action(usize),
    Shortcut(usize),
    Message(usize),
}

/// What the router decides for one request.
pub enum RoutePlan {
    /// Echo this challenge without invoking any handler.
    Challenge(String),
    /// Invoke exactly these handlers, in order; an empty list means the
    /// request matched nothing and gets an empty 200.
    Invoke(Vec<HandlerRef>),
}

/// Specification-level form of [`RoutePlan`].
pub enum PlanModel {
    Challenge(Seq<char>),
    Invoke(Seq<HandlerRef>),
}

impl View for RoutePlan {
    type V = PlanModel;

    open spec fn view(&self) -> PlanModel {
        match self {
            RoutePlan::Challenge(c) => PlanModel::Challenge(c@),
            RoutePlan::Invoke(v) => PlanModel::Invoke(v@),
        }
    }
}

/// The registration-order indices of the handlers registered for `key`.
pub open spec fn matching_idx<H>(hs: Seq<(String, H)>, key: Seq<char>) -> Seq<usize>
    decreases hs.len(),
{
    if hs.len() == 0 {
        Seq::empty()
    } else {
        let pre = matching_idx(hs.drop_last(), key);
        if hs.last().0@ == key {
            pre.push((hs.len() - 1) as usize)
        } else {
            pre
        }
    }
}

/// The handler registry, keyed by the five dispatch surfaces. Registration
/// is append-only; insertion order is invocation order.
pub struct EventRouter<H> {
    pub event_handlers: Vec<(String, H)>,
    pub command_handlers: Vec<(String, H)>,
    pub action_handlers: Vec<(String, H)>,
    pub shortcut_handlers: Vec<(String, H)>,
    pub message_handlers: Vec<H>,
}

/// The references to invoke for one interactive request: for each action in
/// array order, every handler registered for its id, in registration order.
pub open spec fn actions_plan<H>(hs: Seq<(String, H)>, actions: Seq<ActionModel>) -> Seq<
    HandlerRef,
>
    decreases actions.len(),
{
    if actions.len() == 0 {
        Seq::empty()
    } else {
        actions_plan(hs, actions.drop_last()) + matching_idx(
            hs,
            actions.last().action_id,
        ).map_values(|i: usize| HandlerRef::Action(i))
    }
}

/// The invocation list for an event that is not a challenge: the handlers
/// keyed by its event type, then, for a message event, every "any message"
/// handler.
pub open spec fn event_invoke<H>(r: &EventRouter<H>, e: crate::request::EventModel) -> Seq<
    HandlerRef,
> {
    let keyed = matching_idx(r.event_handlers@, e.event_type).map_values(
        |i: usize| HandlerRef::Event(i),
    );
    let msg: Seq<HandlerRef> = if e.event_type == "message"@ {
        Seq::new(r.message_handlers@.len(), |j: int| HandlerRef::Message(j as usize))
    } else {
        Seq::empty()
    };
    keyed + msg
}

/// The plan the router owes a classified body.
pub open spec fn spec_route<H>(r: &EventRouter<H>, b: BodyModel) -> PlanModel {
    match b {
        BodyModel::Event(e) => match e.challenge {
            Some(c) => if c.len() > 0 {
                PlanModel::Challenge(c)
            } else {
                PlanModel::Invoke(event_invoke(r, e))
            },
            None => PlanModel::Invoke(event_invoke(r, e)),
        },
        BodyModel::Command(c) => PlanModel::Invoke(
            matching_idx(r.command_handlers@, c.command).map_values(
                |i: usize| HandlerRef::Command(i),
            ),
        ),
        BodyModel::Interactive(p) => {
            if p.actions.len() > 0 {
                PlanModel::Invoke(actions_plan(r.action_handlers@, p.actions))
            } else {
                match p.callback_id {
                    Some(cb) => PlanModel::Invoke(
                        matching_idx(r.shortcut_handlers@, cb).map_values(
                            |i: usize| HandlerRef::Shortcut(i),
                        ),
                    ),
                    None => PlanModel::Invoke(Seq::empty()),
                }
            }
        },
        BodyModel::OAuth(_) => PlanModel::Invoke(Seq::empty()),
        BodyModel::Raw(_) => PlanModel::Invoke(Seq::empty()),
    }
}

/// Collects the matching registration indices for `key`, mirroring
/// [`matching_idx`].
fn matching_handlers<H>(hs: &Vec<(String, H)>, key: &String) -> (r: Vec<usize>)
    ensures
        r@ == matching_idx(hs@, key@),
{
    let n = hs.len();
    let mut r: Vec<usize> = Vec::new();
    let mut i: usize = 0;
    proof {
        assert(hs@.subrange(0, 0) =~= Seq::<(String, H)>::empty());
        assert(r@ =~= matching_idx(hs@.subrange(0, 0), key@));
    }
    while i < n
        invariant
            n == hs@.len(),
            i <= n,
            r@ == matching_idx(hs@.subrange(0, i as int), key@),
        decreases n - i,
    {
        let ghost pre = hs@.subrange(0, i as int);
        let ghost prex = hs@.subrange(0, i + 1);
        proof {
            assert(prex.drop_last() =~= pre);
            assert(prex.last() == hs@[i as int]);
        }
        if hs[i].0 == *key {
            r.push(i);
        }
        i = i + 1;
    }
    proof {
        assert(hs@.subrange(0, n as int) =~= hs@);
    }
    r
}

/// Turns matching indices into references for one surface.
#[allow(unused_variables)]
fn to_refs(idxs: Vec<usize>, surface: u8) -> (r: Vec<HandlerRef>)
    requires
        surface < 4,
    ensures
        surface == 0 ==> r@ == idxs@.map_values(|i: usize| HandlerRef::Event(i)),
        surface == 1 ==> r@ == idxs@.map_values(|i: usize| HandlerRef::Command(i)),
        surface == 2 ==> r@ == idxs@.map_values(|i: usize| HandlerRef::Action(i)),
        surface == 3 ==> r@ == idxs@.map_values(|i: usize| HandlerRef::Shortcut(i)),
{
    let n = idxs.len();
    let mut r: Vec<HandlerRef> = Vec::new();
    let mut i: usize = 0;
    while i < n
        invariant
            n == idxs@.len(),
            surface < 4,
            i <= n,
            r@.len() == i,
            forall|j: int|
                0 <= j < i ==> #[trigger] r@[j] == (if surface == 0 {
                    HandlerRef::Event(idxs@[j])
                } else if surface == 1 {
                    HandlerRef::Command(idxs@[j])
                } else if surface == 2 {
                    HandlerRef::Action(idxs@[j])
                } else {
                    HandlerRef::Shortcut(idxs@[j])
                }),
        decreases n - i,
    {
        let v = idxs[i];
        if surface == 0 {
            r.push(HandlerRef::Event(v));
        } else if surface == 1 {
            r.push(HandlerRef::Command(v));
        } else if surface == 2 {
            r.push(HandlerRef::Action(v));
        } else {
            r.push(HandlerRef::Shortcut(v));
        }
        i = i + 1;
    }
    proof {
        if surface == 0 {
            assert(r@ =~= idxs@.map_values(|i: usize| HandlerRef::Event(i)));
        } else if surface == 1 {
            assert(r@ =~= idxs@.map_values(|i: usize| HandlerRef::Command(i)));
        } else if surface == 2 {
            assert(r@ =~= idxs@.map_values(|i: usize| HandlerRef::Action(i)));
        } else {
            assert(r@ =~= idxs@.map_values(|i: usize| HandlerRef::Shortcut(i)));
        }
    }
    r
}

impl<H> EventRouter<H> {
    /// A registry with no handlers.
    pub fn new() -> (r: EventRouter<H>)
        ensures
            r.event_handlers@.len() == 0,
            r.command_handlers@.len() == 0,
            r.action_handlers@.len() == 0,
            r.shortcut_handlers@.len() == 0,
            r.message_handlers@.len() == 0,
    {
        EventRouter {
            event_handlers: Vec::new(),
            command_handlers: Vec::new(),
            action_handlers: Vec::new(),
            shortcut_handlers: Vec::new(),
            message_handlers: Vec::new(),
        }
    }

    /// Registers a handler for an event type.
    pub fn add_event_handler(&mut self, event_type: String, handler: H)
        ensures
            final(self).event_handlers@ == old(self).event_handlers@.push(
                (event_type, handler),
            ),
            final(self).command_handlers == old(self).command_handlers,
            final(self).action_handlers == old(self).action_handlers,
            final(self).shortcut_handlers == old(self).shortcut_handlers,
            final(self).message_handlers == old(self).message_handlers,
    {
        self.event_handlers.push((event_type, handler));
    }

    /// Registers a handler for a slash command.
    pub fn add_command_handler(&mut self, command: String, handler: H)
        ensures
            final(self).command_handlers@ == old(self).command_handlers@.push(
                (command, handler),
            ),
            final(self).event_handlers == old(self).event_handlers,
            final(self).action_handlers == old(self).action_handlers,
            final(self).shortcut_handlers == old(self).shortcut_handlers,
            final(self).message_handlers == old(self).message_handlers,
    {
        self.command_handlers.push((command, handler));
    }

    /// Registers a handler for an action id.
    pub fn add_action_handler(&mut self, action_id: String, handler: H)
        ensures
            final(self).action_handlers@ == old(self).action_handlers@.push(
                (action_id, handler),
            ),
            final(self).event_handlers == old(self).event_handlers,
            final(self).command_handlers == old(self).command_handlers,
            final(self).shortcut_handlers == old(self).shortcut_handlers,
            final(self).message_handlers == old(self).message_handlers,
    {
        self.action_handlers.push((action_id, handler));
    }

    /// Registers a handler for a shortcut callback id.
    pub fn add_shortcut_handler(&mut self, callback_id: String, handler: H)
        ensures
            final(self).shortcut_handlers@ == old(self).shortcut_handlers@.push(
                (callback_id, handler),
            ),
            final(self).event_handlers == old(self).event_handlers,
            final(self).command_handlers == old(self).command_handlers,
            final(self).action_handlers == old(self).action_handlers,
            final(self).message_handlers == old(self).message_handlers,
    {
        self.shortcut_handlers.push((callback_id, handler));
    }

    /// Registers a handler for every message event.
    pub fn add_message_handler(&mut self, handler: H)
        ensures
            final(self).message_handlers@ == old(self).message_handlers@.push(handler),
            final(self).event_handlers == old(self).event_handlers,
            final(self).command_handlers == old(self).command_handlers,
            final(self).action_handlers == old(self).action_handlers,
            final(self).shortcut_handlers == old(self).shortcut_handlers,
    {
        self.message_handlers.push(handler);
    }

    /// Routes a classified body, mirroring [`spec_route`]: the challenge
    /// short-circuit comes before any handler lookup, and the plan lists
    /// every matching handler in invocation order.
    pub fn route_request(&self, body: &SlackRequestBody) -> (r: RoutePlan)
        ensures
            r@ == spec_route(self, body@),
    {
        match body {
            SlackRequestBody::Event(e) => {
                match &e.challenge {
                    Some(c) => {
                        if !c.as_str().is_empty() {
                            return RoutePlan::Challenge(c.clone());
                        }
                    },
                    None => {},
                }
                let idxs = matching_handlers(&self.event_handlers, &e.event_type);
                let mut refs = to_refs(idxs, 0);
                let msg_key = String::from_str("message");
                if e.event_type == msg_key {
                    let nm = self.message_handlers.len();
                    let ghost base = refs@;
                    let mut j: usize = 0;
                    while j < nm
                        invariant
                            nm == self.message_handlers@.len(),
                            j <= nm,
                            refs@.len() == base.len() + j,
                            refs@.subrange(0, base.len() as int) == base,
                            forall|t: int|
                                0 <= t < j ==> #[trigger] refs@[base.len() + t]
                                    == HandlerRef::Message(t as usize),
                        decreases nm - j,
                    {
                        refs.push(HandlerRef::Message(j));
                        j = j + 1;
                        proof {
                            assert(refs@.subrange(0, base.len() as int) =~= base);
                        }
                    }
                    proof {
                        let msg = Seq::new(
                            self.message_handlers@.len(),
                            |t: int| HandlerRef::Message(t as usize),
                        );
                        assert forall|t: int| 0 <= t < refs@.len() implies refs@[t] == (base
                            + msg)[t] by {
                            if t < base.len() {
                                assert(refs@.subrange(0, base.len() as int)[t] == refs@[t]);
                            } else {
                                assert(refs@[base.len() + (t - base.len())]
                                    == HandlerRef::Message((t - base.len()) as usize));
                            }
                        }
                        assert(refs@ =~= base + msg);
                    }
                } else {
                    proof {
                        assert(refs@ =~= refs@ + Seq::<HandlerRef>::empty());
                    }
                }
                RoutePlan::Invoke(refs)
            },
            SlackRequestBody::Command(c) => {
                let idxs = matching_handlers(&self.command_handlers, &c.command);
                RoutePlan::Invoke(to_refs(idxs, 1))
            },
            SlackRequestBody::Interactive(p) => {
                let na = p.actions.len();
                if na > 0 {
                    let mut refs: Vec<HandlerRef> = Vec::new();
                    let mut k: usize = 0;
                    proof {
                        assert(p.actions@.subrange(0, 0) =~= Seq::<
                            crate::request::ActionPayload,
                        >::empty());
                        assert(p@.actions.subrange(0, 0) =~= Seq::<ActionModel>::empty());
                        assert(refs@ =~= actions_plan(
                            self.action_handlers@,
                            p@.actions.subrange(0, 0),
                        ));
                    }
                    while k < na
                        invariant
                            na == p.actions@.len(),
                            na == p@.actions.len(),
                            k <= na,
                            p@.actions == p.actions.deep_view(),
                            refs@ == actions_plan(
                                self.action_handlers@,
                                p@.actions.subrange(0, k as int),
                            ),
                        decreases na - k,
                    {
                        let ghost pre = p@.actions.subrange(0, k as int);
                        let ghost prex = p@.actions.subrange(0, k + 1);
                        proof {
                            assert(prex.drop_last() =~= pre);
                            assert(prex.last() == p@.actions[k as int]);
                            assert(p@.actions[k as int] == p.actions@[k as int]@);
                        }
                        let idxs = matching_handlers(
                            &self.action_handlers,
                            &p.actions[k].action_id,
                        );
                        let more = to_refs(idxs, 2);
                        let ghost base = refs@;
                        let nm = more.len();
                        let mut j: usize = 0;
                        while j < nm
                            invariant
                                nm == more@.len(),
                                j <= nm,
                                refs@ == base + more@.subrange(0, j as int),
                            decreases nm - j,
                        {
                            refs.push(more[j]);
                            j = j + 1;
                            proof {
                                assert(refs@ =~= base + more@.subrange(0, j as int));
                            }
                        }
                        k = k + 1;
                        proof {
                            assert(more@.subrange(0, nm as int) =~= more@);
                            assert(refs@ =~= actions_plan(
                                self.action_handlers@,
                                p@.actions.subrange(0, k as int),
                            ));
                        }
                    }
                    proof {
                        assert(p@.actions.subrange(0, na as int) =~= p@.actions);
                    }
                    RoutePlan::Invoke(refs)
                } else {
                    match &p.callback_id {
                        Some(cb) => {
                            let idxs = matching_handlers(&self.shortcut_handlers, cb);
                            RoutePlan::Invoke(to_refs(idxs, 3))
                        },
                        None => {
                            let refs: Vec<HandlerRef> = Vec::new();
                            proof {
                                assert(refs@ =~= Seq::<HandlerRef>::empty());
                            }
                            RoutePlan::Invoke(refs)
                        },
                    }
                }
            },
            SlackRequestBody::OAuth(_) => {
                let refs: Vec<HandlerRef> = Vec::new();
                proof {
                    assert(refs@ =~= Seq::<HandlerRef>::empty());
                }
                RoutePlan::Invoke(refs)
            },
            SlackRequestBody::Raw(_) => {
                let refs: Vec<HandlerRef> = Vec::new();
                proof {
                    assert(refs@ =~= Seq::<HandlerRef>::empty());
                }
                RoutePlan::Invoke(refs)
            },
        }
    }

    /// The handler a reference points at, if the reference is in bounds.
    pub fn handler(&self, r: &HandlerRef) -> (h: Option<&H>)
        ensures
            match r {
                HandlerRef::Event(i) => (h matches Some(x) <==> (i as int)
                    < self.event_handlers@.len()) && (h matches Some(x) ==> *x
                    == self.event_handlers@[*i as int].1),
                HandlerRef::Command(i) => (h matches Some(x) <==> (i as int)
                    < self.command_handlers@.len()) && (h matches Some(x) ==> *x
                    == self.command_handlers@[*i as int].1),
                HandlerRef::Action(i) => (h matches Some(x) <==> (i as int)
                    < self.action_handlers@.len()) && (h matches Some(x) ==> *x
                    == self.action_handlers@[*i as int].1),
                HandlerRef::Shortcut(i) => (h matches Some(x) <==> (i as int)
                    < self.shortcut_handlers@.len()) && (h matches Some(x) ==> *x
                    == self.shortcut_handlers@[*i as int].1),
                HandlerRef::Message(i) => (h matches Some(x) <==> (i as int)
                    < self.message_handlers@.len()) && (h matches Some(x) ==> *x
                    == self.message_handlers@[*i as int]),
            },
    {
        match r {
            HandlerRef::Event(i) => {
                if *i < self.event_handlers.len() {
                    Some(&self.event_handlers[*i].1)
                } else {
                    None
                }
            },
            HandlerRef::Command(i) => {
                if *i < self.command_handlers.len() {
                    Some(&self.command_handlers[*i].1)
                } else {
                    None
                }
            },
            HandlerRef::Action(i) => {
                if *i < self.action_handlers.len() {
                    Some(&self.action_handlers[*i].1)
                } else {
                    None
                }
            },
            HandlerRef::Shortcut(i) => {
                if *i < self.shortcut_handlers.len() {
                    Some(&self.shortcut_handlers[*i].1)
                } else {
                    None
                }
            },
            HandlerRef::Message(i) => {
                if *i < self.message_handlers.len() {
                    Some(&self.message_handlers[*i])
                } else {
                    None
                }
            },
        }
    }
}


/// What one handler invocation produced: a synchronous acknowledgment, no
/// synchronous response, or an error. Errors are isolated per handler; they
/// never abort sibling handlers.
pub enum HandlerOutcome {
    Acked(SlackResponse),
    NoResponse,
    Failed,
}

/// Specification-level form of [`HandlerOutcome`].
pub enum OutcomeModel {
    Acked(ResponseModel),
    NoResponse,
    Failed,
}

impl View for HandlerOutcome {
    type V = OutcomeModel;

    open spec fn view(&self) -> OutcomeModel {
        match self {
            HandlerOutcome::Acked(r) => OutcomeModel::Acked(r@),
            HandlerOutcome::NoResponse => OutcomeModel::NoResponse,
            HandlerOutcome::Failed => OutcomeModel::Failed,
        }
    }
}

impl DeepView for HandlerOutcome {
    type V = OutcomeModel;

    open spec fn deep_view(&self) -> OutcomeModel {
        self.view()
    }
}

/// The first acknowledgment among the outcomes, in invocation order.
pub open spec fn first_ack(outcomes: Seq<OutcomeModel>) -> Option<ResponseModel>
    decreases outcomes.len(),
{
    if outcomes.len() == 0 {
        None
    } else {
        match outcomes[0] {
            OutcomeModel::Acked(r) => Some(r),
            _ => first_ack(outcomes.drop_first()),
        }
    }
}

/// Every outcome is a failure.
pub open spec fn all_failed(outcomes: Seq<OutcomeModel>) -> bool {
    forall|i: int| 0 <= i < outcomes.len() ==> outcomes[i] is Failed
}

/// The generic failure response: it names no internal detail.
pub open spec fn failure_response_model() -> ResponseModel {
    ResponseModel {
        status_code: 500,
        headers: Seq::empty(),
        body: crate::response::ResponseBodyModel::Text(
            crate::response::TextModel {
                text: "Internal Server Error"@,
                response_type: None,
                replace_original: None,
                delete_original: None,
            },
        ),
    }
}

/// The response owed for a list of handler outcomes: the first
/// acknowledgment wins; if every handler failed (and one ran), a generic
/// failure; otherwise an empty 200.
pub open spec fn respond_model(outcomes: Seq<OutcomeModel>) -> ResponseModel {
    match first_ack(outcomes) {
        Some(r) => r,
        None => if outcomes.len() > 0 && all_failed(outcomes) {
            failure_response_model()
        } else {
            empty_response_model()
        },
    }
}

/// Selects the response for a list of handler outcomes, mirroring
/// [`respond_model`].
pub fn respond(outcomes: Vec<HandlerOutcome>) -> (r: SlackResponse)
    ensures
        r@ == respond_model(outcomes.deep_view()),
{
    let n = outcomes.len();
    let ghost om = outcomes.deep_view();
    let mut failed_so_far = true;
    let mut i: usize = 0;
    proof {
        assert(om.subrange(0, om.len() as int) =~= om);
    }
    while i < n
        invariant
            n == outcomes@.len(),
            n == om.len(),
            om == outcomes.deep_view(),
            i <= n,
            first_ack(om) == first_ack(om.subrange(i as int, n as int)),
            failed_so_far == (forall|j: int| 0 <= j < i ==> om[j] is Failed),
        decreases n - i,
    {
        let ghost suf = om.subrange(i as int, n as int);
        proof {
            assert(suf[0] == om[i as int]);
            assert(suf.drop_first() =~= om.subrange(i + 1, n as int));
            assert(om[i as int] == outcomes@[i as int]@);
        }
        let is_ack = match &outcomes[i] {
            HandlerOutcome::Acked(_) => true,
            _ => false,
        };
        if is_ack {
            let mut v = outcomes;
            let out = v.remove(i);
            match out {
                HandlerOutcome::Acked(resp) => {
                    proof {
                        assert(first_ack(om) == Some(resp@));
                    }
                    return resp;
                },
                _ => {
                    proof {
                        assert(false);
                    }
                    return SlackResponse::empty();
                },
            }
        }
        let is_failed = match &outcomes[i] {
            HandlerOutcome::Failed => true,
            _ => false,
        };
        failed_so_far = failed_so_far && is_failed;
        i = i + 1;
    }
    proof {
        assert(om.subrange(n as int, n as int) =~= Seq::<OutcomeModel>::empty());
        assert(first_ack(om) is None);
    }
    if n > 0 && failed_so_far {
        let r = SlackResponse {
            status_code: 500,
            headers: Vec::new(),
            body: crate::response::SlackResponseBody::Text(
                crate::response::TextResponse {
                    text: String::from_str("Internal Server Error"),
                    response_type: None,
                    replace_original: None,
                    delete_original: None,
                },
            ),
        };
        proof {
            assert(r@.headers =~= failure_response_model().headers);
        }
        r
    } else {
        SlackResponse::empty()
    }
}

/// The isolation law: failures and silent handlers before the first
/// acknowledgment never change the response — the first acknowledging
/// handler's response is used, no matter how many handlers before it
/// failed.
pub proof fn lemma_handler_isolation(outcomes: Seq<OutcomeModel>, k: int)
    requires
        0 <= k < outcomes.len(),
        forall|j: int| 0 <= j < k ==> !(#[trigger] outcomes[j] is Acked),
        outcomes[k] is Acked,
    ensures
        respond_model(outcomes) == outcomes[k]->Acked_0,
    decreases k,
{
    if k == 0 {
    } else {
        let rest = outcomes.drop_first();
        assert forall|j: int| 0 <= j < k - 1 implies !(#[trigger] rest[j] is Acked) by {
            assert(rest[j] == outcomes[j + 1]);
        }
        assert(rest[k - 1] == outcomes[k]);
        lemma_handler_isolation(rest, k - 1);
    }
}

/// The challenge law: an Event carrying a non-empty challenge is answered
/// by echoing the challenge, before any handler lookup — the plan for such
/// a request invokes no handler.
pub proof fn lemma_challenge_short_circuit<H>(
    r: &EventRouter<H>,
    e: crate::request::EventModel,
)
    requires
        e.challenge matches Some(c) && c.len() > 0,
    ensures
        spec_route(r, BodyModel::Event(e)) == PlanModel::Challenge(e.challenge.unwrap()),
{
}

} // verus!
