//! A verified core for a Slack-style webhook application framework.
//!
//! The library authenticates inbound webhook callbacks with the platform's
//! timestamped HMAC scheme, classifies raw request bodies into typed request
//! variants, routes classified requests to registered handlers with
//! acknowledgment-once semantics, and drives the OAuth installation state
//! machine with single-use, time-limited anti-forgery state tokens.

pub mod ack;
pub mod classify;
pub mod client;
pub mod config;
pub mod error;
pub mod form;
pub mod installation_store;
pub mod json;
pub mod listener;
pub mod middleware;
pub mod oauth_flow;
pub mod oauth_settings;
pub mod percent;
pub mod pipeline;
pub mod request;
pub mod response;
pub mod scan;
pub mod signature;
pub mod state_store;
pub mod strconv;

pub use ack::Ack;
pub use config::AppConfig;
pub use error::SlackError;
pub use installation_store::{Installation, InstallationStore, MemoryInstallationStore};
pub use listener::EventRouter;
pub use middleware::MiddlewareStack;
pub use oauth_flow::OAuthFlow;
pub use oauth_settings::OAuthSettings;
pub use request::{SlackRequest, SlackRequestBody};
pub use response::SlackResponse;
pub use state_store::{MemoryStateStore, OAuthState, StateStore};
