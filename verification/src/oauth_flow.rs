//! The OAuth installation flow: authorization-URL construction, anti-forgery
//! state issuance and consumption, and installation persistence.
//!
//! The code-for-token HTTP exchange itself happens outside this crate: the
//! caller starts the flow with [`OAuthFlow::start`], consumes the callback's
//! state token with [`OAuthFlow::consume_state`], posts the form built by
//! [`OAuthFlow::build_token_request`] to the platform's token endpoint, and
//! hands the response body to [`OAuthFlow::finish_install`].

use vstd::prelude::*;
use vstd::string::{StrSliceExecFns, StringExecFns};
use vstd::utf8::encode_utf8;
use crate::classify::{find_member, member_lookup, str_field, str_of_member};
use crate::error::SlackError;
use crate::json::{parse_obj, parse_obj_text, JMemberModel, JTokenModel, JsonMember, JsonToken};
use crate::installation_store::{dup_strings, install_key, InstallModel, Installation,
    InstallationStore};
use crate::percent::{encode_bytes, percent_encode};
use crate::state_store::{consume_spec, OAuthState, StateModel, StateStore, STATE_TTL_SECONDS};
use crate::strconv::{chars_to_string, str_to_bytes, to_chars};

verus! {

/// The comma-joined form of a scope list.
pub open spec fn join_commas(parts: Seq<Seq<char>>) -> Seq<char>
    decreases parts.len(),
{
    if parts.len() == 0 {
        Seq::empty()
    } else if parts.len() == 1 {
        parts[0]
    } else {
        join_commas(parts.drop_last()) + ","@ + parts.last()
    }
}

/// The percent-encoded form of a string, as characters.
pub open spec fn enc(s: Seq<char>) -> Seq<char> {
    percent_encode(encode_utf8(s))
}

/// The authorization URL for one installation attempt: client id, the
/// comma-joined scopes, the redirect URI and the state token as query
/// parameters, plus a `user_scope` parameter when user scopes were
/// requested.
pub open spec fn auth_url(
    client_id: Seq<char>,
    scopes: Seq<Seq<char>>,
    redirect_uri: Seq<char>,
    user_scopes: Seq<Seq<char>>,
    state: Seq<char>,
) -> Seq<char> {
    "https://slack.com/oauth/v2/authorize?client_id="@ + enc(client_id) + "&scope="@ + enc(
        join_commas(scopes),
    ) + "&redirect_uri="@ + enc(redirect_uri) + "&state="@ + enc(state) + (if user_scopes.len()
        > 0 {
        "&user_scope="@ + enc(join_commas(user_scopes))
    } else {
        Seq::empty()
    })
}

/// Joins scopes with commas, mirroring [`join_commas`].
pub fn join_scopes(v: &Vec<String>) -> (r: String)
    ensures
        r@ == join_commas(v.deep_view()),
{
    let n = v.len();
    let mut acc = String::new();
    let mut i: usize = 0;
    proof {
        assert(v.deep_view().subrange(0, 0) =~= Seq::<Seq<char>>::empty());
    }
    while i < n
        invariant
            n == v@.len(),
            n == v.deep_view().len(),
            i <= n,
            acc@ == join_commas(v.deep_view().subrange(0, i as int)),
        decreases n - i,
    {
        let ghost pre = v.deep_view().subrange(0, i as int);
        let ghost prex = v.deep_view().subrange(0, i + 1);
        proof {
            assert(prex.drop_last() =~= pre);
            assert(prex.last() == v.deep_view()[i as int]);
            assert(v.deep_view()[i as int] == v@[i as int]@);
            if i == 0 {
                assert(prex[0] == v.deep_view()[0]);
            }
        }
        if i > 0 {
            acc.append(",");
        }
        acc.append(v[i].as_str());
        i = i + 1;
    }
    proof {
        assert(v.deep_view().subrange(0, n as int) =~= v.deep_view());
    }
    acc
}

/// Percent-encodes a string for use as a query value.
fn encode_component(s: &str) -> (r: Vec<char>)
    ensures
        r@ == enc(s@),
{
    let bytes = str_to_bytes(s);
    encode_bytes(bytes.as_slice())
}

/// Appends `src` to `dst`.
fn push_chars(dst: &mut Vec<char>, src: &Vec<char>)
    ensures
        final(dst)@ == old(dst)@ + src@,
{
    let ghost base = old(dst)@;
    let n = src.len();
    let mut i: usize = 0;
    proof {
        assert(dst@ =~= base + src@.subrange(0, 0));
    }
    while i < n
        invariant
            n == src@.len(),
            i <= n,
            dst@ == base + src@.subrange(0, i as int),
        decreases n - i,
    {
        dst.push(src[i]);
        i = i + 1;
        proof {
            assert(dst@ =~= base + src@.subrange(0, i as int));
        }
    }
    proof {
        assert(src@.subrange(0, n as int) =~= src@);
    }
}

/// A store holds a freshly started installation attempt for `tok`: the new
/// map is the old one plus one record carrying exactly that token, bound to
/// the redirect URI, with a full lifetime ahead of it.
pub open spec fn started(
    old_m: Map<Seq<char>, StateModel>,
    new_m: Map<Seq<char>, StateModel>,
    redirect: Seq<char>,
    tok: Seq<char>,
) -> bool {
    &&& new_m.contains_key(tok)
    &&& new_m[tok].state == tok
    &&& new_m[tok].redirect_uri == Some(redirect)
    &&& new_m[tok].expires_at == new_m[tok].created_at + STATE_TTL_SECONDS
    &&& new_m == old_m.insert(tok, new_m[tok])
}

/// The flow controller: client credentials, requested scopes, and the two
/// stores it drives.
pub struct OAuthFlow<S, I> {
    pub client_id: String,
    pub client_secret: String,
    pub redirect_uri: String,
    pub scopes: Vec<String>,
    pub user_scopes: Vec<String>,
    pub installation_store: I,
    pub state_store: S,
}

impl<S: StateStore, I: InstallationStore> OAuthFlow<S, I> {
    /// A flow over the given credentials, scopes and stores.
    pub fn new(
        client_id: String,
        client_secret: String,
        redirect_uri: String,
        scopes: Vec<String>,
        user_scopes: Vec<String>,
        installation_store: I,
        state_store: S,
    ) -> (r: OAuthFlow<S, I>)
        ensures
            r.client_id == client_id,
            r.client_secret == client_secret,
            r.redirect_uri == redirect_uri,
            r.scopes == scopes,
            r.user_scopes == user_scopes,
            r.installation_store == installation_store,
            r.state_store == state_store,
    {
        OAuthFlow {
            client_id,
            client_secret,
            redirect_uri,
            scopes,
            user_scopes,
            installation_store,
            state_store,
        }
    }

    /// Starts one installation attempt with an explicit token and time: the
    /// state record is persisted with a ten-minute lifetime and bound to the
    /// redirect URI, and the returned URL embeds exactly that token.
    pub fn start_at(&mut self, token: String, now: i64) -> (r: core::result::Result<
        String,
        SlackError,
    >)
        requires
            now <= i64::MAX - STATE_TTL_SECONDS,
        ensures
            r matches Ok(url) ==> final(self).state_store.states() == old(
                self,
            ).state_store.states().insert(
                token@,
                StateModel {
                    state: token@,
                    redirect_uri: Some(old(self).redirect_uri@),
                    created_at: now,
                    expires_at: (now + STATE_TTL_SECONDS) as i64,
                },
            ),
            r matches Ok(url) ==> url@ == auth_url(
                old(self).client_id@,
                old(self).scopes.deep_view(),
                old(self).redirect_uri@,
                old(self).user_scopes.deep_view(),
                token@,
            ),
            r is Err ==> final(self).state_store.states() == old(self).state_store.states(),
            final(self).installation_store == old(self).installation_store,
            final(self).client_id == old(self).client_id,
            final(self).client_secret == old(self).client_secret,
            final(self).redirect_uri == old(self).redirect_uri,
            final(self).scopes == old(self).scopes,
            final(self).user_scopes == old(self).user_scopes,
    {
        let ghost tok = token@;
        let record = OAuthState::issue(token, now).with_redirect_uri(self.redirect_uri.clone());
        match self.state_store.save(&record) {
            Ok(()) => {},
            Err(e) => {
                return Err(e);
            },
        }
        let mut url = to_chars("https://slack.com/oauth/v2/authorize?client_id=");
        let part = encode_component(self.client_id.as_str());
        push_chars(&mut url, &part);
        let amp_scope = to_chars("&scope=");
        push_chars(&mut url, &amp_scope);
        let joined = join_scopes(&self.scopes);
        let part = encode_component(joined.as_str());
        push_chars(&mut url, &part);
        let amp_redirect = to_chars("&redirect_uri=");
        push_chars(&mut url, &amp_redirect);
        let part = encode_component(self.redirect_uri.as_str());
        push_chars(&mut url, &part);
        let amp_state = to_chars("&state=");
        push_chars(&mut url, &amp_state);
        let part = encode_component(record.state.as_str());
        push_chars(&mut url, &part);
        if self.user_scopes.len() > 0 {
            let amp_user = to_chars("&user_scope=");
            push_chars(&mut url, &amp_user);
            let ujoined = join_scopes(&self.user_scopes);
            let part = encode_component(ujoined.as_str());
            push_chars(&mut url, &part);
        }
        let out = chars_to_string(&url);
        proof {
            assert(out@ =~= auth_url(
                self.client_id@,
                self.scopes.deep_view(),
                self.redirect_uri@,
                self.user_scopes.deep_view(),
                tok,
            ));
        }
        Ok(out)
    }

    /// Starts one installation attempt with a fresh random token at the
    /// current time: some token is persisted with a ten-minute lifetime and
    /// bound to the redirect URI, and the returned URL embeds exactly that
    /// token.
    pub fn start(&mut self) -> (r: core::result::Result<String, SlackError>)
        ensures
            r matches Ok(url) ==> exists|tok: Seq<char>|
                url@ == #[trigger] auth_url(
                    old(self).client_id@,
                    old(self).scopes.deep_view(),
                    old(self).redirect_uri@,
                    old(self).user_scopes.deep_view(),
                    tok,
                ) && started(
                    old(self).state_store.states(),
                    final(self).state_store.states(),
                    old(self).redirect_uri@,
                    tok,
                ),
            r is Err ==> final(self).state_store.states() == old(self).state_store.states(),
            final(self).installation_store == old(self).installation_store,
    {
        let token = crate::state_store::new_state_token();
        let now = crate::state_store::current_unix_seconds();
        let ghost tok = token@;
        let r = self.start_at(token, now);
        proof {
            if r is Ok {
                assert(r->Ok_0@ == auth_url(
                    old(self).client_id@,
                    old(self).scopes.deep_view(),
                    old(self).redirect_uri@,
                    old(self).user_scopes.deep_view(),
                    tok,
                ));
                assert(started(
                    old(self).state_store.states(),
                    self.state_store.states(),
                    old(self).redirect_uri@,
                    tok,
                ));
            }
        }
        r
    }

    /// Verifies and consumes the callback's state token: deleted on every
    /// terminal outcome, accepted only when live and matching. A missing,
    /// expired or mismatched token fails with the OAuth state error; any
    /// other failure is the store's own and changes nothing. The flow's
    /// credentials and scopes are untouched either way.
    pub fn consume_state(&mut self, state: &str, now: i64) -> (r: core::result::Result<
        OAuthState,
        SlackError,
    >)
        ensures
            r matches Ok(st) ==> final(self).state_store.states() == consume_spec(
                old(self).state_store.states(),
                state@,
                now,
            ).0 && consume_spec(old(self).state_store.states(), state@, now).1 == Some(st@),
            r matches Err(SlackError::OAuth(m)) ==> m@ == "Invalid or expired state"@
                && final(self).state_store.states() == consume_spec(
                old(self).state_store.states(),
                state@,
                now,
            ).0 && consume_spec(old(self).state_store.states(), state@, now).1 is None,
            (r matches Err(e) && !(e matches SlackError::OAuth(_)))
                ==> final(self).state_store.states() == old(self).state_store.states(),
            final(self).installation_store == old(self).installation_store,
            final(self).client_id == old(self).client_id,
            final(self).client_secret == old(self).client_secret,
            final(self).redirect_uri == old(self).redirect_uri,
            final(self).scopes == old(self).scopes,
            final(self).user_scopes == old(self).user_scopes,
    {
        match self.state_store.verify_and_consume(state, now) {
            Ok(Some(st)) => Ok(st),
            Ok(None) => Err(SlackError::OAuth(String::from_str("Invalid or expired state"))),
            // A store failure passes through, except that an OAuth-shaped
            // one is rewrapped so that the OAuth variant speaks only for
            // this function's own state decision.
            Err(e) => match e {
                SlackError::OAuth(m) => Err(SlackError::Internal(m)),
                other => Err(other),
            },
        }
    }

    /// The form parameters of the code-for-token exchange request.
    pub fn build_token_request(&self, code: &str) -> (r: Vec<(String, String)>)
        ensures
            r@.len() == 4,
            r@[0].0@ == "client_id"@ && r@[0].1@ == self.client_id@,
            r@[1].0@ == "client_secret"@ && r@[1].1@ == self.client_secret@,
            r@[2].0@ == "code"@ && r@[2].1@ == code@,
            r@[3].0@ == "redirect_uri"@ && r@[3].1@ == self.redirect_uri@,
    {
        let mut r: Vec<(String, String)> = Vec::new();
        r.push((String::from_str("client_id"), self.client_id.clone()));
        r.push((String::from_str("client_secret"), self.client_secret.clone()));
        r.push((String::from_str("code"), String::from_str(code)));
        r.push((String::from_str("redirect_uri"), self.redirect_uri.clone()));
        r
    }
}


/// The token endpoint's response envelope, flattened to plain values.
pub struct OAuthAccessResponse {
    pub ok: bool,
    pub error: Option<String>,
    pub access_token: Option<String>,
    pub token_type: Option<String>,
    pub scope: Option<String>,
    pub bot_user_id: Option<String>,
    pub app_id: String,
    pub team_id: String,
    pub team_name: String,
    pub enterprise_id: Option<String>,
    pub enterprise_name: Option<String>,
    pub authed_user_id: String,
    pub authed_user_scope: Option<String>,
    pub authed_user_access_token: Option<String>,
    pub authed_user_token_type: Option<String>,
}

/// Specification-level form of [`OAuthAccessResponse`].
pub struct AccessModel {
    pub ok: bool,
    pub error: Option<Seq<char>>,
    pub access_token: Option<Seq<char>>,
    pub token_type: Option<Seq<char>>,
    pub scope: Option<Seq<char>>,
    pub bot_user_id: Option<Seq<char>>,
    pub app_id: Seq<char>,
    pub team_id: Seq<char>,
    pub team_name: Seq<char>,
    pub enterprise_id: Option<Seq<char>>,
    pub enterprise_name: Option<Seq<char>>,
    pub authed_user_id: Seq<char>,
    pub authed_user_scope: Option<Seq<char>>,
    pub authed_user_access_token: Option<Seq<char>>,
    pub authed_user_token_type: Option<Seq<char>>,
}

impl View for OAuthAccessResponse {
    type V = AccessModel;

    open spec fn view(&self) -> AccessModel {
        AccessModel {
            ok: self.ok,
            error: self.error.deep_view(),
            access_token: self.access_token.deep_view(),
            token_type: self.token_type.deep_view(),
            scope: self.scope.deep_view(),
            bot_user_id: self.bot_user_id.deep_view(),
            app_id: self.app_id@,
            team_id: self.team_id@,
            team_name: self.team_name@,
            enterprise_id: self.enterprise_id.deep_view(),
            enterprise_name: self.enterprise_name.deep_view(),
            authed_user_id: self.authed_user_id@,
            authed_user_scope: self.authed_user_scope.deep_view(),
            authed_user_access_token: self.authed_user_access_token.deep_view(),
            authed_user_token_type: self.authed_user_token_type.deep_view(),
        }
    }
}

/// The error string an OAuth failure echoes: the upstream error, or a fixed
/// fallback when the envelope named none.
pub open spec fn oauth_err_msg(e: Option<Seq<char>>) -> Seq<char> {
    match e {
        Some(m) => m,
        None => "Unknown OAuth error"@,
    }
}

/// The installation record a successful exchange denotes: bot and user
/// credentials exactly as granted, the requested scopes, and the enterprise
/// grouping when the response names one.
pub open spec fn install_of(resp: AccessModel, scopes: Seq<Seq<char>>, now: i64) -> InstallModel {
    InstallModel {
        team_id: resp.team_id,
        enterprise_id: resp.enterprise_id,
        bot_token: resp.access_token,
        bot_user_id: match resp.access_token {
            Some(_) => Some(
                match resp.bot_user_id {
                    Some(b) => b,
                    None => Seq::empty(),
                },
            ),
            None => None,
        },
        user_token: resp.authed_user_access_token,
        user_id: match resp.authed_user_access_token {
            Some(_) => Some(resp.authed_user_id),
            None => None,
        },
        scopes: scopes,
        user_scopes: Seq::empty(),
        installed_at: now,
        expires_at: None,
    }
}

impl<S: StateStore, I: InstallationStore> OAuthFlow<S, I> {
    /// Checks the exchange envelope and persists the installation: a non-ok
    /// envelope fails with the upstream OAuth error and stores nothing; an
    /// ok envelope yields exactly the record [`install_of`] describes,
    /// persisted under its workspace key.
    pub fn finish_install(&mut self, resp: OAuthAccessResponse, now: i64) -> (r:
        core::result::Result<Installation, SlackError>)
        ensures
            !resp.ok ==> (r matches Err(e) && (e matches SlackError::OAuth(m) && m@
                == oauth_err_msg(resp@.error))) && final(self).installation_store == old(
                self,
            ).installation_store,
            r matches Ok(inst) ==> resp.ok && inst@ == install_of(
                resp@,
                old(self).scopes.deep_view(),
                now,
            ) && final(self).installation_store.installs() == old(
                self,
            ).installation_store.installs().insert(install_key(inst@), inst@),
            resp.ok && r is Err ==> final(self).installation_store.installs() == old(
                self,
            ).installation_store.installs(),
            final(self).state_store == old(self).state_store,
            final(self).scopes == old(self).scopes,
    {
        if !resp.ok {
            let msg = match resp.error {
                Some(m) => m,
                None => String::from_str("Unknown OAuth error"),
            };
            return Err(SlackError::OAuth(msg));
        }
        let mut inst = Installation::new(resp.team_id, now).with_scopes(
            dup_strings(&self.scopes),
        );
        match resp.access_token {
            Some(bot) => {
                let bot_user = match resp.bot_user_id {
                    Some(b) => b,
                    None => String::new(),
                };
                inst = inst.with_bot_token(bot, bot_user);
            },
            None => {},
        }
        match resp.authed_user_access_token {
            Some(user_token) => {
                inst = inst.with_user_token(user_token, resp.authed_user_id);
            },
            None => {},
        }
        match resp.enterprise_id {
            Some(ent) => {
                inst = inst.with_enterprise_id(ent);
            },
            None => {},
        }
        match self.installation_store.save(&inst) {
            Ok(()) => Ok(inst),
            Err(e) => Err(e),
        }
    }
}


/// The decoded text of a string member of a nested object's raw text, if
/// the raw text parses as an object carrying that member as a string.
pub open spec fn nested_str_field(raw: Seq<char>, key: Seq<char>) -> Option<Seq<char>> {
    match parse_obj_text(raw) {
        Some(ms) => str_field(ms, key),
        None => None,
    }
}

/// An optional string member: absent and null both mean "no value"; any
/// other non-string value is an error.
pub open spec fn opt_str_member(ms: Seq<JMemberModel>, key: Seq<char>) -> Option<
    Option<Seq<char>>,
> {
    match member_lookup(ms, key) {
        None => Some(None),
        Some(m) => match m.value {
            JTokenModel::JStr(x) => Some(Some(x)),
            JTokenModel::JNull => Some(None),
            _ => None,
        },
    }
}

/// An optional string member of a nested object's raw text.
pub open spec fn nested_opt_str_field(raw: Seq<char>, key: Seq<char>) -> Option<
    Option<Seq<char>>,
> {
    match parse_obj_text(raw) {
        Some(ms) => opt_str_member(ms, key),
        None => None,
    }
}

/// The access envelope denoted by a JSON body, if it parses and carries the
/// required members: `ok` as a boolean, `app_id` as a string, `team` as an
/// object with `id` and `name`, `authed_user` as an object with `id`, and
/// the optional string members of the envelope.
pub open spec fn spec_parse_access(s: Seq<char>) -> Option<AccessModel> {
    match parse_obj_text(s) {
        None => None,
        Some(ms) => {
            let okm = member_lookup(ms, "ok"@);
            let error = opt_str_member(ms, "error"@);
            let access_token = opt_str_member(ms, "access_token"@);
            let token_type = opt_str_member(ms, "token_type"@);
            let scope = opt_str_member(ms, "scope"@);
            let bot_user_id = opt_str_member(ms, "bot_user_id"@);
            let app_id = str_field(ms, "app_id"@);
            let team = member_lookup(ms, "team"@);
            let authed = member_lookup(ms, "authed_user"@);
            if (okm matches Some(m) && m.value is JBool) && error is Some && access_token
                is Some && token_type is Some && scope is Some && bot_user_id is Some && app_id
                is Some && team is Some && authed is Some {
                let okv = okm.unwrap().value->JBool_0;
                let tid = nested_str_field(team.unwrap().raw, "id"@);
                let tname = nested_str_field(team.unwrap().raw, "name"@);
                let auid = nested_str_field(authed.unwrap().raw, "id"@);
                let au_scope = nested_opt_str_field(authed.unwrap().raw, "scope"@);
                let au_token = nested_opt_str_field(authed.unwrap().raw, "access_token"@);
                let au_tt = nested_opt_str_field(authed.unwrap().raw, "token_type"@);
                let ent: Option<(Option<Seq<char>>, Option<Seq<char>>)> = match member_lookup(
                    ms,
                    "enterprise"@,
                ) {
                    None => Some((None, None)),
                    Some(m) => if m.value is JNull {
                        Some((None, None))
                    } else {
                        match (nested_str_field(m.raw, "id"@), nested_str_field(
                            m.raw,
                            "name"@,
                        )) {
                            (Some(eid), Some(ename)) => Some((Some(eid), Some(ename))),
                            _ => None,
                        }
                    },
                };
                if tid is Some && tname is Some && auid is Some && au_scope is Some && au_token
                    is Some && au_tt is Some && ent is Some {
                    Some(
                        AccessModel {
                            ok: okv,
                            error: error.unwrap(),
                            access_token: access_token.unwrap(),
                            token_type: token_type.unwrap(),
                            scope: scope.unwrap(),
                            bot_user_id: bot_user_id.unwrap(),
                            app_id: app_id.unwrap(),
                            team_id: tid.unwrap(),
                            team_name: tname.unwrap(),
                            enterprise_id: ent.unwrap().0,
                            enterprise_name: ent.unwrap().1,
                            authed_user_id: auid.unwrap(),
                            authed_user_scope: au_scope.unwrap(),
                            authed_user_access_token: au_token.unwrap(),
                            authed_user_token_type: au_tt.unwrap(),
                        },
                    )
                } else {
                    None
                }
            } else {
                None
            }
        },
    }
}

/// Extracts an optional string member, mirroring [`opt_str_member`].
fn opt_str_of(ms: &Vec<JsonMember>, key: &str) -> (r: Option<Option<String>>)
    ensures
        match r {
            Some(o) => opt_str_member(ms.deep_view(), key@) == Some(o.deep_view()),
            None => opt_str_member(ms.deep_view(), key@) is None,
        },
{
    match find_member(ms, key) {
        None => Some(None),
        Some(i) => match &ms[i].value {
            JsonToken::JStr(x) => Some(Some(x.clone())),
            JsonToken::JNull => Some(None),
            _ => None,
        },
    }
}

/// Extracts a required string member of a nested object's raw text,
/// mirroring [`nested_str_field`].
fn nested_str(raw: &String, key: &str) -> (r: Option<String>)
    ensures
        match r {
            Some(x) => nested_str_field(raw@, key@) == Some(x@),
            None => nested_str_field(raw@, key@) is None,
        },
{
    let chars = to_chars(raw.as_str());
    match parse_obj(&chars) {
        None => None,
        Some(ms) => match find_member(&ms, key) {
            None => None,
            Some(i) => str_of_member(&ms, i),
        },
    }
}

/// Extracts an optional string member of a nested object's raw text,
/// mirroring [`nested_opt_str_field`].
fn nested_opt_str(raw: &String, key: &str) -> (r: Option<Option<String>>)
    ensures
        match r {
            Some(o) => nested_opt_str_field(raw@, key@) == Some(o.deep_view()),
            None => nested_opt_str_field(raw@, key@) is None,
        },
{
    let chars = to_chars(raw.as_str());
    match parse_obj(&chars) {
        None => None,
        Some(ms) => opt_str_of(&ms, key),
    }
}

/// Parses the token endpoint's response body, mirroring
/// [`spec_parse_access`].
pub fn parse_access_response(body: &str) -> (r: core::result::Result<
    OAuthAccessResponse,
    SlackError,
>)
    ensures
        r matches Ok(a) ==> spec_parse_access(body@) == Some(a@),
        r is Err ==> spec_parse_access(body@) is None && (r matches Err(e) && e
            matches SlackError::Json(_)),
{
    let chars = to_chars(body);
    let ms = match parse_obj(&chars) {
        None => {
            return Err(SlackError::Json(String::from_str("Failed to parse OAuth response")));
        },
        Some(ms) => ms,
    };
    let ok = match find_member(&ms, "ok") {
        Some(i) => match &ms[i].value {
            JsonToken::JBool(b) => *b,
            _ => {
                return Err(SlackError::Json(String::from_str(
                    "Failed to parse OAuth response",
                )));
            },
        },
        None => {
            return Err(SlackError::Json(String::from_str("Failed to parse OAuth response")));
        },
    };
    let error = match opt_str_of(&ms, "error") {
        Some(o) => o,
        None => {
            return Err(SlackError::Json(String::from_str("Failed to parse OAuth response")));
        },
    };
    let access_token = match opt_str_of(&ms, "access_token") {
        Some(o) => o,
        None => {
            return Err(SlackError::Json(String::from_str("Failed to parse OAuth response")));
        },
    };
    let token_type = match opt_str_of(&ms, "token_type") {
        Some(o) => o,
        None => {
            return Err(SlackError::Json(String::from_str("Failed to parse OAuth response")));
        },
    };
    let scope = match opt_str_of(&ms, "scope") {
        Some(o) => o,
        None => {
            return Err(SlackError::Json(String::from_str("Failed to parse OAuth response")));
        },
    };
    let bot_user_id = match opt_str_of(&ms, "bot_user_id") {
        Some(o) => o,
        None => {
            return Err(SlackError::Json(String::from_str("Failed to parse OAuth response")));
        },
    };
    let app_id = match find_member(&ms, "app_id") {
        Some(i) => match str_of_member(&ms, i) {
            Some(x) => x,
            None => {
                return Err(SlackError::Json(String::from_str(
                    "Failed to parse OAuth response",
                )));
            },
        },
        None => {
            return Err(SlackError::Json(String::from_str("Failed to parse OAuth response")));
        },
    };
    let team_raw = match find_member(&ms, "team") {
        Some(i) => ms[i].raw.clone(),
        None => {
            return Err(SlackError::Json(String::from_str("Failed to parse OAuth response")));
        },
    };
    let team_id = match nested_str(&team_raw, "id") {
        Some(x) => x,
        None => {
            return Err(SlackError::Json(String::from_str("Failed to parse OAuth response")));
        },
    };
    let team_name = match nested_str(&team_raw, "name") {
        Some(x) => x,
        None => {
            return Err(SlackError::Json(String::from_str("Failed to parse OAuth response")));
        },
    };
    let authed_raw = match find_member(&ms, "authed_user") {
        Some(i) => ms[i].raw.clone(),
        None => {
            return Err(SlackError::Json(String::from_str("Failed to parse OAuth response")));
        },
    };
    let authed_user_id = match nested_str(&authed_raw, "id") {
        Some(x) => x,
        None => {
            return Err(SlackError::Json(String::from_str("Failed to parse OAuth response")));
        },
    };
    let authed_user_scope = match nested_opt_str(&authed_raw, "scope") {
        Some(o) => o,
        None => {
            return Err(SlackError::Json(String::from_str("Failed to parse OAuth response")));
        },
    };
    let authed_user_access_token = match nested_opt_str(&authed_raw, "access_token") {
        Some(o) => o,
        None => {
            return Err(SlackError::Json(String::from_str("Failed to parse OAuth response")));
        },
    };
    let authed_user_token_type = match nested_opt_str(&authed_raw, "token_type") {
        Some(o) => o,
        None => {
            return Err(SlackError::Json(String::from_str("Failed to parse OAuth response")));
        },
    };
    let (enterprise_id, enterprise_name): (Option<String>, Option<String>) = match find_member(
        &ms,
        "enterprise",
    ) {
        None => (None, None),
        Some(i) => match &ms[i].value {
            JsonToken::JNull => (None, None),
            _ => {
                let ent_raw = ms[i].raw.clone();
                let eid = match nested_str(&ent_raw, "id") {
                    Some(x) => x,
                    None => {
                        return Err(SlackError::Json(String::from_str(
                            "Failed to parse OAuth response",
                        )));
                    },
                };
                let ename = match nested_str(&ent_raw, "name") {
                    Some(x) => x,
                    None => {
                        return Err(SlackError::Json(String::from_str(
                            "Failed to parse OAuth response",
                        )));
                    },
                };
                (Some(eid), Some(ename))
            },
        },
    };
    let a = OAuthAccessResponse {
        ok,
        error,
        access_token,
        token_type,
        scope,
        bot_user_id,
        app_id,
        team_id,
        team_name,
        enterprise_id,
        enterprise_name,
        authed_user_id,
        authed_user_scope,
        authed_user_access_token,
        authed_user_token_type,
    };
    proof {
        assert(spec_parse_access(body@) == Some(a@));
    }
    Ok(a)
}

} // verus!
