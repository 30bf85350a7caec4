//! Configuration of the OAuth installation flow, assembled builder-style.

use vstd::prelude::*;
use vstd::string::StringExecFns;
use crate::installation_store::InstallationStore;
use crate::state_store::StateStore;

verus! {

/// Settings for the installation flow: client credentials, requested
/// scopes, and the two persistence backends.
pub struct OAuthSettings<S, I> {
    pub client_id: Option<String>,
    pub client_secret: Option<String>,
    pub redirect_uri: Option<String>,
    pub scopes: Vec<String>,
    pub user_scopes: Vec<String>,
    pub installation_store: Option<I>,
    pub state_store: Option<S>,
}

impl<S: StateStore, I: InstallationStore> OAuthSettings<S, I> {
    /// Fresh settings requesting the default bot scope and naming no
    /// credentials and no stores.
    pub fn new() -> (r: OAuthSettings<S, I>)
        ensures
            r.client_id is None,
            r.client_secret is None,
            r.redirect_uri is None,
            r.scopes@.len() == 1 && r.scopes@[0]@ == "chat:write"@,
            r.user_scopes@.len() == 0,
            r.installation_store is None,
            r.state_store is None,
    {
        let mut scopes: Vec<String> = Vec::new();
        scopes.push(String::from_str("chat:write"));
        OAuthSettings {
            client_id: None,
            client_secret: None,
            redirect_uri: None,
            scopes,
            user_scopes: Vec::new(),
            installation_store: None,
            state_store: None,
        }
    }

    /// Sets the client id.
    pub fn client_id(self, client_id: String) -> (r: OAuthSettings<S, I>)
        ensures
            r == (OAuthSettings { client_id: Some(client_id), ..self }),
    {
        OAuthSettings { client_id: Some(client_id), ..self }
    }

    /// Sets the client secret.
    pub fn client_secret(self, client_secret: String) -> (r: OAuthSettings<S, I>)
        ensures
            r == (OAuthSettings { client_secret: Some(client_secret), ..self }),
    {
        OAuthSettings { client_secret: Some(client_secret), ..self }
    }

    /// Sets the redirect URI.
    pub fn redirect_uri(self, uri: String) -> (r: OAuthSettings<S, I>)
        ensures
            r == (OAuthSettings { redirect_uri: Some(uri), ..self }),
    {
        OAuthSettings { redirect_uri: Some(uri), ..self }
    }

    /// Replaces the requested bot scopes.
    pub fn scopes(self, scopes: Vec<String>) -> (r: OAuthSettings<S, I>)
        ensures
            r == (OAuthSettings { scopes: scopes, ..self }),
    {
        OAuthSettings { scopes, ..self }
    }

    /// Replaces the requested user scopes.
    pub fn user_scopes(self, user_scopes: Vec<String>) -> (r: OAuthSettings<S, I>)
        ensures
            r == (OAuthSettings { user_scopes: user_scopes, ..self }),
    {
        OAuthSettings { user_scopes, ..self }
    }

    /// Sets the installation store.
    pub fn installation_store(self, store: I) -> (r: OAuthSettings<S, I>)
        ensures
            r == (OAuthSettings { installation_store: Some(store), ..self }),
    {
        OAuthSettings { installation_store: Some(store), ..self }
    }

    /// Sets the state store.
    pub fn state_store(self, store: S) -> (r: OAuthSettings<S, I>)
        ensures
            r == (OAuthSettings { state_store: Some(store), ..self }),
    {
        OAuthSettings { state_store: Some(store), ..self }
    }
}

} // verus!
