//! The inbound pipeline: raw request in, decision out.
//!
//! Authentication and classification run before dispatch and short-circuit
//! with a fixed response; a challenge is echoed before any handler lookup;
//! OAuth callbacks are handed back for the flow to drive; everything else
//! yields the exact list of handlers to run.

use vstd::prelude::*;
use vstd::string::StringExecFns;
use crate::classify::{
    header_lookup, header_lookup_or_empty, parse_body, spec_classify, Classified,
};

use crate::form::pairs_view;
use crate::listener::{spec_route, EventRouter, HandlerRef, PlanModel, RoutePlan};
use crate::request::{BodyModel, RequestModel, SlackRequest, SlackRequestBody};
use crate::response::{
    challenge_response_model, empty_response_model, ResponseBodyModel, ResponseModel,
    SlackResponse,
};
use crate::signature::{signature_ok, verify_signature};

verus! {

/// What the pipeline decided for one raw request.
pub enum Prepared {
    /// Answer immediately with this response, invoking nothing.
    Respond(SlackResponse),
    /// Run exactly these handlers against the classified request, in order,
    /// and select the response from their outcomes.
    Run(SlackRequest, Vec<HandlerRef>),
    /// Hand the classified OAuth callback to the installation flow.
    OAuthCallback(SlackRequest),
}

/// Specification-level form of [`Prepared`].
pub enum PreparedModel {
    Respond(ResponseModel),
    Run(RequestModel, Seq<HandlerRef>),
    OAuthCallback(RequestModel),
}

impl View for Prepared {
    type V = PreparedModel;

    open spec fn view(&self) -> PreparedModel {
        match self {
            Prepared::Respond(r) => PreparedModel::Respond(r@),
            Prepared::Run(req, refs) => PreparedModel::Run(req@, refs@),
            Prepared::OAuthCallback(req) => PreparedModel::OAuthCallback(req@),
        }
    }
}

/// The fixed authentication-failure response: 401, no detail.
pub open spec fn unauthorized_model() -> ResponseModel {
    ResponseModel { status_code: 401, headers: Seq::empty(), body: ResponseBodyModel::Empty }
}

/// The fixed classification-failure response: 400, no detail.
pub open spec fn bad_request_model() -> ResponseModel {
    ResponseModel { status_code: 400, headers: Seq::empty(), body: ResponseBodyModel::Empty }
}

/// The full pipeline contract: what [`prepare`] returns for a raw request,
/// in terms of the looked-up headers, the signature check, the
/// classification and the routing plan.
pub open spec fn prepare_post<H>(
    router: &EventRouter<H>,
    secret: Seq<char>,
    method: Seq<char>,
    path: Seq<char>,
    hv: Seq<(Seq<char>, Seq<char>)>,
    qv: Seq<(Seq<char>, Seq<char>)>,
    body: Seq<char>,
    r: PreparedModel,
) -> bool {
    let ts = header_lookup(hv, "x-slack-request-timestamp"@);
    let sg = header_lookup(hv, "x-slack-signature"@);
    let ct = header_lookup_or_empty(hv, "content-type"@);
    let cl = spec_classify(ct, body);
    if ts is None || sg is None || !signature_ok(secret, ts.unwrap(), body, sg.unwrap()) {
        r == PreparedModel::Respond(unauthorized_model())
    } else {
        match cl {
            Classified::BadJson => r == PreparedModel::Respond(bad_request_model()),
            Classified::BadForm => r == PreparedModel::Respond(bad_request_model()),
            Classified::Body(b) => match spec_route(router, b) {
                PlanModel::Challenge(c) => r == PreparedModel::Respond(
                    challenge_response_model(c),
                ),
                PlanModel::Invoke(refs) => match b {
                    BodyModel::OAuth(_) => r == PreparedModel::OAuthCallback(
                        RequestModel {
                            method: method,
                            path: path,
                            headers: hv,
                            query_params: qv,
                            body: b,
                        },
                    ),
                    BodyModel::Raw(_) => r == PreparedModel::Respond(empty_response_model()),
                    _ => r == PreparedModel::Run(
                        RequestModel {
                            method: method,
                            path: path,
                            headers: hv,
                            query_params: qv,
                            body: b,
                        },
                        refs,
                    ),
                },
            },
        }
    }
}

/// Authenticates, classifies and routes one raw request.
///
/// Missing or mismatched signature headers yield the fixed 401; a
/// classification failure yields the fixed 400; a challenge is echoed with
/// no handler invoked; an OAuth callback is handed back for the flow; a raw
/// body gets an empty 200; everything else is handed back with exactly the
/// plan the router owes it.
///
/// Authentication here checks the signature alone. A deployment that wants
/// a replay window as well checks the timestamp header first with
/// [`crate::signature::verify_signature_fresh`], choosing its own
/// tolerance.
pub fn prepare<H>(
    router: &EventRouter<H>,
    signing_secret: &str,
    method: String,
    path: String,
    headers: Vec<(String, String)>,
    query_params: Vec<(String, String)>,
    body: &str,
) -> (r: Prepared)
    ensures
        prepare_post(
            router,
            signing_secret@,
            method@,
            path@,
            pairs_view(headers@),
            pairs_view(query_params@),
            body@,
            r@,
        ),
{
    let ts = crate::classify::header_get(&headers, "x-slack-request-timestamp");
    let sg = crate::classify::header_get(&headers, "x-slack-signature");
    let (tsv, sgv) = match (ts, sg) {
        (Some(t), Some(s)) => (t, s),
        _ => {
            return Prepared::Respond(unauthorized());
        },
    };
    match verify_signature(signing_secret, tsv.as_str(), body, sgv.as_str()) {
        Ok(()) => {},
        Err(_) => {
            return Prepared::Respond(unauthorized());
        },
    }
    let classified = match parse_body(body, &headers) {
        Ok(b) => b,
        Err(_) => {
            return Prepared::Respond(bad_request());
        },
    };
    let plan = router.route_request(&classified);
    let request = SlackRequest { method, path, headers, query_params, body: classified };
    match plan {
        RoutePlan::Challenge(c) => Prepared::Respond(SlackResponse::challenge(c)),
        RoutePlan::Invoke(refs) => {
            match &request.body {
                SlackRequestBody::OAuth(_) => Prepared::OAuthCallback(request),
                SlackRequestBody::Raw(_) => Prepared::Respond(SlackResponse::empty()),
                _ => Prepared::Run(request, refs),
            }
        },
    }
}

/// The fixed 401 response.
fn unauthorized() -> (r: SlackResponse)
    ensures
        r@ == unauthorized_model(),
{
    let r = SlackResponse { status_code: 401, headers: Vec::new(), body: crate::response::SlackResponseBody::Empty };
    proof {
        assert(r@.headers =~= unauthorized_model().headers);
    }
    r
}

/// The fixed 400 response.
fn bad_request() -> (r: SlackResponse)
    ensures
        r@ == bad_request_model(),
{
    let r = SlackResponse { status_code: 400, headers: Vec::new(), body: crate::response::SlackResponseBody::Empty };
    proof {
        assert(r@.headers =~= bad_request_model().headers);
    }
    r
}

/// What an OAuth callback asks the flow to do.
pub enum OAuthAction {
    /// The upstream reported an error: answer 400 echoing only that error
    /// string.
    Fail(String),
    /// Code and state are both present: complete the installation.
    Complete(String, String),
    /// The flow has not started: redirect the user to the authorization
    /// URL.
    Start,
}

impl View for OAuthAction {
    type V = OAuthActionModel;

    open spec fn view(&self) -> OAuthActionModel {
        match self {
            OAuthAction::Fail(m) => OAuthActionModel::Fail(m@),
            OAuthAction::Complete(c, s) => OAuthActionModel::Complete(c@, s@),
            OAuthAction::Start => OAuthActionModel::Start,
        }
    }
}

/// Specification-level form of [`OAuthAction`].
pub enum OAuthActionModel {
    Fail(Seq<char>),
    Complete(Seq<char>, Seq<char>),
    Start,
}

/// Decides what an OAuth callback asks for: an upstream error message wins,
/// then a complete code-and-state pair, else the flow starts over.
pub open spec fn oauth_action_spec(o: crate::request::OAuthModel) -> OAuthActionModel {
    match o.error {
        Some(e) => OAuthActionModel::Fail("OAuth error: "@ + e),
        None => match (o.code, o.state) {
            (Some(c), Some(s)) => OAuthActionModel::Complete(c, s),
            _ => OAuthActionModel::Start,
        },
    }
}

/// Decides an OAuth callback, mirroring [`oauth_action_spec`].
pub fn oauth_callback_action(o: &crate::request::OAuthRequest) -> (r: OAuthAction)
    ensures
        r@ == oauth_action_spec(o@),
{
    match &o.error {
        Some(e) => {
            let msg = String::from_str("OAuth error: ").concat(e.as_str());
            OAuthAction::Fail(msg)
        },
        None => match (&o.code, &o.state) {
            (Some(c), Some(s)) => OAuthAction::Complete(c.clone(), s.clone()),
            _ => OAuthAction::Start,
        },
    }
}

} // verus!
