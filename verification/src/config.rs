//! Application configuration: the immutable object constructed at startup and
//! consulted by every request-scoped value.

use vstd::prelude::*;
use vstd::string::StringExecFns;
use crate::error::SlackError;

verus! {

/// Static configuration of one application: credentials, signing secret and
/// the scopes requested at installation time.
pub struct AppConfig {
    pub bot_token: Option<String>,
    pub signing_secret: String,
    pub app_token: Option<String>,
    pub client_id: Option<String>,
    pub client_secret: Option<String>,
    pub redirect_uri: Option<String>,
    pub scopes: Vec<String>,
    pub user_scopes: Vec<String>,
}

/// A configuration is acceptable when a signing secret is present and either a
/// bot token or a complete OAuth client credential pair is configured.
pub open spec fn config_valid(c: AppConfig) -> bool {
    &&& c.signing_secret@.len() > 0
    &&& (c.bot_token is Some || c.client_id is Some)
    &&& (c.client_id is Some ==> c.client_secret is Some)
}

impl AppConfig {
    /// A fresh configuration with the given signing secret, requesting the
    /// default bot scope.
    pub fn new(signing_secret: String) -> (r: AppConfig)
        ensures
            r.signing_secret == signing_secret,
            r.bot_token is None,
            r.app_token is None,
            r.client_id is None,
            r.client_secret is None,
            r.redirect_uri is None,
            r.scopes@.len() == 1 && r.scopes@[0]@ == "chat:write"@,
            r.user_scopes@.len() == 0,
    {
        let mut scopes: Vec<String> = Vec::new();
        scopes.push(String::from_str("chat:write"));
        AppConfig {
            bot_token: None,
            signing_secret,
            app_token: None,
            client_id: None,
            client_secret: None,
            redirect_uri: None,
            scopes,
            user_scopes: Vec::new(),
        }
    }

    /// Checks the invariant above, reporting the first missing piece; every
    /// failure is a configuration error.
    pub fn validate(&self) -> (r: core::result::Result<(), SlackError>)
        ensures
            r is Ok <==> config_valid(*self),
            r is Err ==> r matches Err(SlackError::Config(_)),
    {
        if self.signing_secret.as_str().is_empty() {
            return Err(SlackError::Config(String::from_str("Signing secret is required")));
        }
        if self.bot_token.is_none() && self.client_id.is_none() {
            return Err(SlackError::Config(String::from_str(
                "Either bot_token or client_id must be provided",
            )));
        }
        if self.client_id.is_some() && self.client_secret.is_none() {
            return Err(SlackError::Config(String::from_str(
                "client_secret is required when client_id is provided",
            )));
        }
        Ok(())
    }

    /// OAuth is enabled when both halves of the client credential are present.
    pub fn is_oauth_enabled(&self) -> (r: bool)
        ensures
            r == (self.client_id is Some && self.client_secret is Some),
    {
        self.client_id.is_some() && self.client_secret.is_some()
    }

    /// The configured bot token, if any.
    pub fn get_bot_token(&self) -> (r: Option<&String>)
        ensures
            r is Some <==> self.bot_token is Some,
            r matches Some(t) ==> self.bot_token matches Some(b) && t == b,
    {
        self.bot_token.as_ref()
    }
}

} // verus!
