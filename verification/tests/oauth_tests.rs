use slack_app::error::SlackError;
use slack_app::installation_store::{
    find_bot_token, find_user_token, Installation, InstallationStore, MemoryInstallationStore,
};
use slack_app::oauth_flow::{parse_access_response, OAuthAccessResponse, OAuthFlow};
use slack_app::oauth_settings::OAuthSettings;
use slack_app::state_store::{MemoryStateStore, OAuthState, StateStore};

fn test_flow() -> OAuthFlow<MemoryStateStore, MemoryInstallationStore> {
    OAuthFlow::new(
        "client-id".to_string(),
        "SECRET-REDACTED".to_string(),
        "https://example.com/callback".to_string(),
        vec!["chat:write".to_string(), "commands".to_string()],
        Vec::new(),
        MemoryInstallationStore::new(),
        MemoryStateStore::new(),
    )
}

fn ok_access_response() -> OAuthAccessResponse {
    OAuthAccessResponse {
        ok: true,
        error: None,
        access_token: Some("xoxb-bot-token".to_string()),
        token_type: Some("bot".to_string()),
        scope: Some("chat:write".to_string()),
        bot_user_id: Some("B1".to_string()),
        app_id: "A1".to_string(),
        team_id: "T1".to_string(),
        team_name: "Team One".to_string(),
        enterprise_id: None,
        enterprise_name: None,
        authed_user_id: "U1".to_string(),
        authed_user_scope: None,
        authed_user_access_token: None,
        authed_user_token_type: None,
    }
}

#[test]
fn authorization_url_embeds_all_parameters() {
    let mut flow = test_flow();
    let url = flow.start_at("tok-1".to_string(), 1_000).unwrap();
    assert_eq!(
        url,
        "https://slack.com/oauth/v2/authorize?client_id=client-id&scope=chat%3Awrite%2Ccommands&redirect_uri=https%3A%2F%2Fexample.com%2Fcallback&state=tok-1"
    );
}

#[test]
fn authorization_url_carries_user_scope_when_requested() {
    let mut flow = test_flow();
    flow.user_scopes = vec!["identify".to_string()];
    let url = flow.start_at("tok-2".to_string(), 1_000).unwrap();
    assert!(url.ends_with("&user_scope=identify"));
}

#[test]
fn state_is_single_use() {
    // start() followed by complete succeeds exactly once; a second attempt
    // with the same state fails with the invalid-or-expired error.
    let mut flow = test_flow();
    flow.start_at("state-1".to_string(), 1_000).unwrap();
    let first = flow.consume_state("state-1", 1_100);
    assert!(first.is_ok());
    assert_eq!(first.unwrap().state, "state-1");
    let second = flow.consume_state("state-1", 1_100);
    match second {
        Err(SlackError::OAuth(m)) => assert_eq!(m, "Invalid or expired state"),
        _ => panic!("expected the invalid-state error"),
    }
}

#[test]
fn expired_state_is_rejected_and_deleted() {
    // Lifetime is ten minutes; at start+601 the exact same token is
    // rejected, and the record is gone afterwards.
    let mut store = MemoryStateStore::new();
    let record = OAuthState::issue("state-2".to_string(), 1_000);
    store.save(&record).unwrap();
    let r = store.verify_and_consume("state-2", 1_000 + 601).unwrap();
    assert!(r.is_none());
    assert!(store.find("state-2").unwrap().is_none());
}

#[test]
fn state_at_exact_expiry_is_still_valid() {
    let mut store = MemoryStateStore::new();
    store.save(&OAuthState::issue("s".to_string(), 1_000)).unwrap();
    let r = store.verify_and_consume("s", 1_600).unwrap();
    assert!(r.is_some());
}

#[test]
fn cleanup_removes_only_expired_states() {
    let mut store = MemoryStateStore::new();
    store.save(&OAuthState::issue("old".to_string(), 0)).unwrap();
    store.save(&OAuthState::issue("new".to_string(), 10_000)).unwrap();
    let removed = store.cleanup_expired(5_000).unwrap();
    assert_eq!(removed, 1);
    assert!(store.find("old").unwrap().is_none());
    assert!(store.find("new").unwrap().is_some());
}

#[test]
fn state_store_overwrites_on_same_token() {
    let mut store = MemoryStateStore::new();
    store.save(&OAuthState::issue("t".to_string(), 100)).unwrap();
    store.save(&OAuthState::issue("t".to_string(), 200)).unwrap();
    let found = store.find("t").unwrap().unwrap();
    assert_eq!(found.created_at, 200);
}

#[test]
fn fresh_state_has_a_lifetime_and_a_random_token() {
    let a = OAuthState::new();
    let b = OAuthState::new();
    assert_eq!(a.expires_at, a.created_at + 600);
    assert_eq!(a.state.len(), 36);
    assert_ne!(a.state, b.state);
}

#[test]
fn finish_install_persists_the_granted_tokens() {
    let mut flow = test_flow();
    let inst = flow.finish_install(ok_access_response(), 42).unwrap();
    assert_eq!(inst.team_id, "T1");
    assert_eq!(inst.bot_token.as_deref(), Some("xoxb-bot-token"));
    assert_eq!(inst.bot_user_id.as_deref(), Some("B1"));
    assert!(inst.user_token.is_none());
    assert_eq!(inst.scopes, vec!["chat:write".to_string(), "commands".to_string()]);
    assert_eq!(inst.installed_at, 42);
    let stored = flow.installation_store.find_by_team("T1", None).unwrap().unwrap();
    assert_eq!(stored.bot_token.as_deref(), Some("xoxb-bot-token"));
}

#[test]
fn finish_install_records_user_token_and_enterprise() {
    let mut flow = test_flow();
    let mut resp = ok_access_response();
    resp.authed_user_access_token = Some("xoxp-user".to_string());
    resp.enterprise_id = Some("E1".to_string());
    resp.enterprise_name = Some("Ent".to_string());
    let inst = flow.finish_install(resp, 1).unwrap();
    assert_eq!(inst.user_token.as_deref(), Some("xoxp-user"));
    assert_eq!(inst.user_id.as_deref(), Some("U1"));
    assert_eq!(inst.enterprise_id.as_deref(), Some("E1"));
    assert!(flow.installation_store.find_by_team("T1", Some("E1")).unwrap().is_some());
    assert!(flow.installation_store.find_by_team("T1", None).unwrap().is_none());
}

#[test]
fn failed_exchange_surfaces_the_upstream_error() {
    let mut flow = test_flow();
    let mut resp = ok_access_response();
    resp.ok = false;
    resp.error = Some("invalid_code".to_string());
    match flow.finish_install(resp, 1) {
        Err(SlackError::OAuth(m)) => assert_eq!(m, "invalid_code"),
        _ => panic!("expected an OAuth error"),
    }
    assert!(flow.installation_store.find_by_team("T1", None).unwrap().is_none());
}

#[test]
fn failed_exchange_without_code_uses_the_fallback_message() {
    let mut flow = test_flow();
    let mut resp = ok_access_response();
    resp.ok = false;
    match flow.finish_install(resp, 1) {
        Err(SlackError::OAuth(m)) => assert_eq!(m, "Unknown OAuth error"),
        _ => panic!("expected an OAuth error"),
    }
}

#[test]
fn token_request_form_is_complete() {
    let flow = test_flow();
    let params = flow.build_token_request("code-1");
    let expect = [
        ("client_id", "client-id"),
        ("client_secret", "SECRET-REDACTED"),
        ("code", "code-1"),
        ("redirect_uri", "https://example.com/callback"),
    ];
    assert_eq!(params.len(), expect.len());
    for (got, want) in params.iter().zip(expect.iter()) {
        assert_eq!(got.0, want.0);
        assert_eq!(got.1, want.1);
    }
}

#[test]
fn access_response_parses_from_json() {
    let body = "{\"ok\":true,\"access_token\":\"xoxb-1\",\"token_type\":\"bot\",\"scope\":\"chat:write\",\"bot_user_id\":\"B9\",\"app_id\":\"A9\",\"team\":{\"id\":\"T9\",\"name\":\"Nine\"},\"enterprise\":null,\"authed_user\":{\"id\":\"U9\",\"access_token\":\"xoxp-9\"}}";
    let r = parse_access_response(body).unwrap();
    assert!(r.ok);
    assert_eq!(r.access_token.as_deref(), Some("xoxb-1"));
    assert_eq!(r.team_id, "T9");
    assert_eq!(r.team_name, "Nine");
    assert!(r.enterprise_id.is_none());
    assert_eq!(r.authed_user_id, "U9");
    assert_eq!(r.authed_user_access_token.as_deref(), Some("xoxp-9"));
}

#[test]
fn malformed_access_response_is_a_json_error() {
    assert!(matches!(parse_access_response("{\"ok\":true}"), Err(SlackError::Json(_))));
}

#[test]
fn installation_store_overwrites_per_workspace() {
    let mut store = MemoryInstallationStore::new();
    let a = Installation::new("T1".to_string(), 1).with_bot_token(
        "first".to_string(),
        "B".to_string(),
    );
    let b = Installation::new("T1".to_string(), 2).with_bot_token(
        "second".to_string(),
        "B".to_string(),
    );
    store.save(&a).unwrap();
    store.save(&b).unwrap();
    let found = store.find_by_team("T1", None).unwrap().unwrap();
    assert_eq!(found.bot_token.as_deref(), Some("second"));
}

#[test]
fn installation_delete_removes_the_record() {
    let mut store = MemoryInstallationStore::new();
    store.save(&Installation::new("T1".to_string(), 1)).unwrap();
    store.delete("T1", None).unwrap();
    assert!(store.find_by_team("T1", None).unwrap().is_none());
}

#[test]
fn bot_and_user_token_lookups() {
    let mut store = MemoryInstallationStore::new();
    let inst = Installation::new("T1".to_string(), 1)
        .with_bot_token("xoxb".to_string(), "B".to_string())
        .with_user_token("xoxp".to_string(), "U1".to_string());
    store.save(&inst).unwrap();
    assert_eq!(find_bot_token(&store, "T1", None).unwrap().as_deref(), Some("xoxb"));
    assert_eq!(find_user_token(&store, "T1", "U1", None).unwrap().as_deref(), Some("xoxp"));
    assert!(find_user_token(&store, "T1", "U2", None).unwrap().is_none());
    assert!(find_bot_token(&store, "T2", None).unwrap().is_none());
}

#[test]
fn installation_expiry() {
    let mut inst = Installation::new("T1".to_string(), 1);
    assert!(!inst.is_expired(i64::MAX));
    inst.expires_at = Some(100);
    assert!(inst.is_expired(101));
    assert!(!inst.is_expired(100));
}

#[test]
fn oauth_settings_builder_accumulates() {
    let s: OAuthSettings<MemoryStateStore, MemoryInstallationStore> = OAuthSettings::new()
        .client_id("cid".to_string())
        .client_secret("SECRET-REDACTED".to_string())
        .redirect_uri("https://cb".to_string())
        .scopes(vec!["a".to_string()])
        .user_scopes(vec!["b".to_string()])
        .installation_store(MemoryInstallationStore::new())
        .state_store(MemoryStateStore::new());
    assert_eq!(s.client_id.as_deref(), Some("cid"));
    assert_eq!(s.client_secret.as_deref(), Some("SECRET-REDACTED"));
    assert_eq!(s.redirect_uri.as_deref(), Some("https://cb"));
    assert_eq!(s.scopes, vec!["a".to_string()]);
    assert_eq!(s.user_scopes, vec!["b".to_string()]);
    assert!(s.installation_store.is_some());
    assert!(s.state_store.is_some());
}

#[test]
fn started_flow_issues_a_consumable_state() {
    let mut flow = test_flow();
    let url = flow.start().unwrap();
    assert!(url.starts_with("https://slack.com/oauth/v2/authorize?client_id=client-id&scope="));
    // no user scopes were requested, so the state token is the last query
    // parameter; a UUID survives percent-encoding unchanged
    let state = url.rsplit("&state=").next().unwrap().to_string();
    assert_eq!(state.len(), 36);
    let now = slack_app::state_store::current_unix_seconds();
    let consumed = flow.consume_state(&state, now).unwrap();
    assert_eq!(consumed.state, state);
    assert_eq!(consumed.redirect_uri.as_deref(), Some("https://example.com/callback"));
    assert!(matches!(
        flow.consume_state(&state, now),
        Err(SlackError::OAuth(_))
    ));
}
