//! The typed inbound request: one classified body per request.
//!
//! Nested JSON values that the framework does not interpret (the inner event
//! of an Event callback, the team, user, channel and message objects of an
//! interactive callback) are carried as their raw JSON text.

use vstd::prelude::*;
use crate::form::pairs_view;

verus! {

/// An inbound HTTP request after classification.
pub struct SlackRequest {
    pub method: String,
    pub path: String,
    pub headers: Vec<(String, String)>,
    pub query_params: Vec<(String, String)>,
    pub body: SlackRequestBody,
}

/// The classified body: exactly one variant per request, `Raw` being the
/// fallback for anything unrecognized.
pub enum SlackRequestBody {
    Event(EventRequest),
    Command(CommandRequest),
    Interactive(InteractiveRequest),
    OAuth(OAuthRequest),
    Raw(String),
}

/// An Events API callback.
pub struct EventRequest {
    pub token: String,
    pub team_id: String,
    pub api_app_id: String,
    /// Raw JSON text of the inner event.
    pub event: String,
    pub event_type: String,
    pub event_time: u64,
    pub challenge: Option<String>,
}

/// A slash-command invocation. Absent form fields default to the empty
/// string; they are never an error.
pub struct CommandRequest {
    pub token: String,
    pub team_id: String,
    pub team_domain: String,
    pub channel_id: String,
    pub channel_name: String,
    pub user_id: String,
    pub user_name: String,
    pub command: String,
    pub text: String,
    pub response_url: String,
    pub trigger_id: String,
}

/// One action of an interactive callback: its dispatch id and raw JSON text.
pub struct ActionPayload {
    pub action_id: String,
    /// Raw JSON text of the whole action object.
    pub raw: String,
}

/// An interactive-component callback.
pub struct InteractiveRequest {
    pub token: String,
    /// Raw JSON text of the team object.
    pub team: String,
    /// Raw JSON text of the user object.
    pub user: String,
    /// Raw JSON text of the channel object, when present.
    pub channel: Option<String>,
    /// Raw JSON text of the message object, when present.
    pub message: Option<String>,
    pub actions: Vec<ActionPayload>,
    pub callback_id: Option<String>,
    pub trigger_id: String,
    pub response_url: String,
}

/// An OAuth redirect callback.
pub struct OAuthRequest {
    pub code: Option<String>,
    pub state: Option<String>,
    pub error: Option<String>,
}

/// Specification-level form of [`EventRequest`].
pub struct EventModel {
    pub token: Seq<char>,
    pub team_id: Seq<char>,
    pub api_app_id: Seq<char>,
    pub event: Seq<char>,
    pub event_type: Seq<char>,
    pub event_time: u64,
    pub challenge: Option<Seq<char>>,
}

/// Specification-level form of [`CommandRequest`].
pub struct CommandModel {
    pub token: Seq<char>,
    pub team_id: Seq<char>,
    pub team_domain: Seq<char>,
    pub channel_id: Seq<char>,
    pub channel_name: Seq<char>,
    pub user_id: Seq<char>,
    pub user_name: Seq<char>,
    pub command: Seq<char>,
    pub text: Seq<char>,
    pub response_url: Seq<char>,
    pub trigger_id: Seq<char>,
}

/// Specification-level form of [`ActionPayload`].
pub struct ActionModel {
    pub action_id: Seq<char>,
    pub raw: Seq<char>,
}

/// Specification-level form of [`InteractiveRequest`].
pub struct InteractiveModel {
    pub token: Seq<char>,
    pub team: Seq<char>,
    pub user: Seq<char>,
    pub channel: Option<Seq<char>>,
    pub message: Option<Seq<char>>,
    pub actions: Seq<ActionModel>,
    pub callback_id: Option<Seq<char>>,
    pub trigger_id: Seq<char>,
    pub response_url: Seq<char>,
}

/// Specification-level form of [`OAuthRequest`].
pub struct OAuthModel {
    pub code: Option<Seq<char>>,
    pub state: Option<Seq<char>>,
    pub error: Option<Seq<char>>,
}

/// Specification-level form of [`SlackRequestBody`].
pub enum BodyModel {
    Event(EventModel),
    Command(CommandModel),
    Interactive(InteractiveModel),
    OAuth(OAuthModel),
    Raw(Seq<char>),
}

impl View for EventRequest {
    type V = EventModel;

    open spec fn view(&self) -> EventModel {
        EventModel {
            token: self.token@,
            team_id: self.team_id@,
            api_app_id: self.api_app_id@,
            event: self.event@,
            event_type: self.event_type@,
            event_time: self.event_time,
            challenge: self.challenge.deep_view(),
        }
    }
}

impl View for CommandRequest {
    type V = CommandModel;

    open spec fn view(&self) -> CommandModel {
        CommandModel {
            token: self.token@,
            team_id: self.team_id@,
            team_domain: self.team_domain@,
            channel_id: self.channel_id@,
            channel_name: self.channel_name@,
            user_id: self.user_id@,
            user_name: self.user_name@,
            command: self.command@,
            text: self.text@,
            response_url: self.response_url@,
            trigger_id: self.trigger_id@,
        }
    }
}

impl View for ActionPayload {
    type V = ActionModel;

    open spec fn view(&self) -> ActionModel {
        ActionModel { action_id: self.action_id@, raw: self.raw@ }
    }
}

impl DeepView for ActionPayload {
    type V = ActionModel;

    open spec fn deep_view(&self) -> ActionModel {
        self.view()
    }
}

impl View for InteractiveRequest {
    type V = InteractiveModel;

    open spec fn view(&self) -> InteractiveModel {
        InteractiveModel {
            token: self.token@,
            team: self.team@,
            user: self.user@,
            channel: self.channel.deep_view(),
            message: self.message.deep_view(),
            actions: self.actions.deep_view(),
            callback_id: self.callback_id.deep_view(),
            trigger_id: self.trigger_id@,
            response_url: self.response_url@,
        }
    }
}

impl View for OAuthRequest {
    type V = OAuthModel;

    open spec fn view(&self) -> OAuthModel {
        OAuthModel {
            code: self.code.deep_view(),
            state: self.state.deep_view(),
            error: self.error.deep_view(),
        }
    }
}

/// Specification-level form of [`SlackRequest`].
pub struct RequestModel {
    pub method: Seq<char>,
    pub path: Seq<char>,
    pub headers: Seq<(Seq<char>, Seq<char>)>,
    pub query_params: Seq<(Seq<char>, Seq<char>)>,
    pub body: BodyModel,
}

impl View for SlackRequest {
    type V = RequestModel;

    open spec fn view(&self) -> RequestModel {
        RequestModel {
            method: self.method@,
            path: self.path@,
            headers: pairs_view(self.headers@),
            query_params: pairs_view(self.query_params@),
            body: self.body@,
        }
    }
}

impl View for SlackRequestBody {
    type V = BodyModel;

    open spec fn view(&self) -> BodyModel {
        match self {
            SlackRequestBody::Event(e) => BodyModel::Event(e@),
            SlackRequestBody::Command(c) => BodyModel::Command(c@),
            SlackRequestBody::Interactive(i) => BodyModel::Interactive(i@),
            SlackRequestBody::OAuth(o) => BodyModel::OAuth(o@),
            SlackRequestBody::Raw(s) => BodyModel::Raw(s@),
        }
    }
}

} // verus!
