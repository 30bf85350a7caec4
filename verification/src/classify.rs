//! The request classifier: one typed body variant per raw request.
//!
//! JSON content becomes an Event payload; form content becomes, in priority
//! order, an Interactive payload (a `payload` key), a Command payload (a
//! `command` key), or an OAuth callback (`code` or `error`); everything else
//! falls back to the raw body.

use vstd::prelude::*;
use vstd::string::{StrSliceExecFns, StringExecFns};
use vstd::utf8::encode_utf8;
use crate::error::SlackError;
use crate::form::{
    form_get, form_get_or_empty, form_lookup, form_lookup_or_empty, form_parse, pairs_view,
    parse_form_data,
};
use crate::json::{
    parse_arr, parse_arr_text, parse_obj, parse_obj_text, JMemberModel, JTokenModel, JsonMember,
    JsonToken,
};
use crate::request::{
    ActionModel, ActionPayload, BodyModel, CommandModel, CommandRequest, EventModel, EventRequest,
    InteractiveModel, InteractiveRequest, OAuthModel, OAuthRequest, SlackRequestBody,
};
use crate::scan::{ascii_lower, bytes_equal, contains_bytes, contains_seq, lower_bytes};
use crate::strconv::{str_to_bytes, to_chars};

verus! {

/// All characters are decimal digits, and there is at least one.
pub open spec fn is_digit_seq(ds: Seq<char>) -> bool {
    ds.len() > 0 && forall|k: int| 0 <= k < ds.len() ==> 48 <= #[trigger] (ds[k] as u32) <= 57
}

/// Numeric value of a digit string.
pub open spec fn digits_val(ds: Seq<char>) -> int
    decreases ds.len(),
{
    if ds.len() == 0 {
        0
    } else {
        digits_val(ds.drop_last()) * 10 + (ds.last() as u32 - 48)
    }
}

/// A digit string's value is never negative.
proof fn lemma_digits_val_nonneg(ds: Seq<char>)
    requires
        forall|k: int| 0 <= k < ds.len() ==> 48 <= #[trigger] (ds[k] as u32) <= 57,
    ensures
        digits_val(ds) >= 0,
    decreases ds.len(),
{
    if ds.len() > 0 {
        lemma_digits_val_nonneg(ds.drop_last());
    }
}

/// Extending a digit string never shrinks its value.
proof fn lemma_digits_val_prefix(ds: Seq<char>, k: int)
    requires
        forall|j: int| 0 <= j < ds.len() ==> 48 <= #[trigger] (ds[j] as u32) <= 57,
        0 <= k <= ds.len(),
    ensures
        digits_val(ds.subrange(0, k)) <= digits_val(ds),
    decreases ds.len() - k,
{
    if k < ds.len() {
        let pre = ds.subrange(0, k);
        let prex = ds.subrange(0, k + 1);
        assert(prex.drop_last() =~= pre);
        lemma_digits_val_nonneg(pre);
        lemma_digits_val_prefix(ds, k + 1);
    } else {
        assert(ds.subrange(0, k) =~= ds);
    }
}

/// The value of a decimal digit string, when it is one and fits in `u64`.
pub open spec fn parse_u64_digits(ds: Seq<char>) -> Option<u64> {
    if is_digit_seq(ds) && digits_val(ds) <= u64::MAX {
        Some(digits_val(ds) as u64)
    } else {
        None
    }
}

/// Parses a decimal digit string, mirroring [`parse_u64_digits`].
pub fn parse_u64_chars(ds: &Vec<char>) -> (r: Option<u64>)
    ensures
        r == parse_u64_digits(ds@),
{
    let n = ds.len();
    if n == 0 {
        return None;
    }
    let mut acc: u64 = 0;
    let mut i: usize = 0;
    proof {
        assert(ds@.subrange(0, 0) =~= Seq::<char>::empty());
    }
    while i < n
        invariant
            n == ds@.len(),
            i <= n,
            forall|j: int| 0 <= j < i ==> 48 <= #[trigger] (ds@[j] as u32) <= 57,
            acc == digits_val(ds@.subrange(0, i as int)),
        decreases n - i,
    {
        let c = ds[i];
        let v = c as u32;
        if !(48 <= v && v <= 57) {
            return None;
        }
        let d = (v - 48) as u64;
        let ghost pre = ds@.subrange(0, i as int);
        let ghost prex = ds@.subrange(0, i + 1);
        proof {
            assert(prex.drop_last() =~= pre);
            assert(digits_val(prex) == digits_val(pre) * 10 + d);
        }
        if acc > (u64::MAX - d) / 10 {
            proof {
                assert(digits_val(prex) > u64::MAX);
                if is_digit_seq(ds@) {
                    lemma_digits_val_prefix(ds@, i + 1);
                }
            }
            return None;
        }
        acc = acc * 10 + d;
        i = i + 1;
    }
    proof {
        assert(ds@.subrange(0, n as int) =~= ds@);
    }
    Some(acc)
}

/// First member with the given key, if any.
pub open spec fn member_lookup(ms: Seq<JMemberModel>, key: Seq<char>) -> Option<JMemberModel>
    decreases ms.len(),
{
    if ms.len() == 0 {
        None
    } else if ms[0].key == key {
        Some(ms[0])
    } else {
        member_lookup(ms.drop_first(), key)
    }
}

/// The decoded text of a string-valued member, if present and a string.
pub open spec fn str_field(ms: Seq<JMemberModel>, key: Seq<char>) -> Option<Seq<char>> {
    match member_lookup(ms, key) {
        Some(m) => match m.value {
            JTokenModel::JStr(x) => Some(x),
            _ => None,
        },
        None => None,
    }
}

/// Index of the first member with the given key, mirroring
/// [`member_lookup`].
pub fn find_member(ms: &Vec<JsonMember>, key: &str) -> (r: Option<usize>)
    ensures
        match r {
            Some(i) => i < ms@.len() && member_lookup(ms.deep_view(), key@) == Some(
                ms.deep_view()[i as int],
            ),
            None => member_lookup(ms.deep_view(), key@) is None,
        },
{
    let keyq = String::from_str(key);
    let n = ms.len();
    let mut i: usize = 0;
    proof {
        assert(ms.deep_view().subrange(0, ms.deep_view().len() as int) =~= ms.deep_view());
    }
    while i < n
        invariant
            n == ms@.len(),
            i <= n,
            keyq@ == key@,
            n == ms.deep_view().len(),
            member_lookup(ms.deep_view(), key@) == member_lookup(
                ms.deep_view().subrange(i as int, n as int),
                key@,
            ),
        decreases n - i,
    {
        let ghost suf = ms.deep_view().subrange(i as int, n as int);
        proof {
            assert(suf[0] == ms.deep_view()[i as int]);
            assert(suf.drop_first() =~= ms.deep_view().subrange(i + 1, n as int));
        }
        if ms[i].key == keyq {
            proof {
                assert(ms.deep_view()[i as int].key == ms@[i as int].key@);
            }
            return Some(i);
        }
        proof {
            assert(ms.deep_view()[i as int].key == ms@[i as int].key@);
        }
        i = i + 1;
    }
    proof {
        assert(ms.deep_view().subrange(n as int, n as int) =~= Seq::<JMemberModel>::empty());
    }
    None
}

/// A string member with a compatibility default: an absent or null member
/// is the empty string, a string member is its text, and any other value
/// is an error.
pub open spec fn str_member_or_empty(ms: Seq<JMemberModel>, key: Seq<char>) -> Option<
    Seq<char>,
> {
    match member_lookup(ms, key) {
        None => Some(Seq::empty()),
        Some(m) => match m.value {
            JTokenModel::JStr(x) => Some(x),
            JTokenModel::JNull => Some(Seq::empty()),
            _ => None,
        },
    }
}

/// The Event payload denoted by a JSON body, if it parses as a JSON object.
/// Fields follow the webhook sender's compatibility rule: absent string
/// members default to the empty string, an absent `event_time` to zero and
/// an absent `event` to empty raw text, so that minimal bodies — the
/// URL-verification challenge among them — still classify as events. A
/// member of the wrong type is an error.
pub open spec fn spec_parse_event(s: Seq<char>) -> Option<EventModel> {
    match parse_obj_text(s) {
        None => None,
        Some(ms) => {
            let token = str_member_or_empty(ms, "token"@);
            let team_id = str_member_or_empty(ms, "team_id"@);
            let api_app_id = str_member_or_empty(ms, "api_app_id"@);
            let event_type = str_member_or_empty(ms, "event_type"@);
            let ev: Seq<char> = match member_lookup(ms, "event"@) {
                None => Seq::empty(),
                Some(m) => m.raw,
            };
            let etv: Option<u64> = match member_lookup(ms, "event_time"@) {
                None => Some(0u64),
                Some(m) => match m.value {
                    JTokenModel::JNum(x) => parse_u64_digits(x),
                    JTokenModel::JNull => Some(0u64),
                    _ => None,
                },
            };
            let chv: Option<Option<Seq<char>>> = match member_lookup(ms, "challenge"@) {
                None => Some(None),
                Some(m) => match m.value {
                    JTokenModel::JStr(x) => Some(Some(x)),
                    JTokenModel::JNull => Some(None),
                    _ => None,
                },
            };
            if token is Some && team_id is Some && api_app_id is Some && event_type is Some
                && etv is Some && chv is Some {
                Some(
                    EventModel {
                        token: token.unwrap(),
                        team_id: team_id.unwrap(),
                        api_app_id: api_app_id.unwrap(),
                        event: ev,
                        event_type: event_type.unwrap(),
                        event_time: etv.unwrap(),
                        challenge: chv.unwrap(),
                    },
                )
            } else {
                None
            }
        },
    }
}

/// Clones the decoded text of a string-valued member at `i`.
pub fn str_of_member(ms: &Vec<JsonMember>, i: usize) -> (r: Option<String>)
    requires
        i < ms@.len(),
    ensures
        match r {
            Some(x) => ms.deep_view()[i as int].value matches JTokenModel::JStr(y) && x@ == y,
            None => !(ms.deep_view()[i as int].value is JStr),
        },
{
    match &ms[i].value {
        JsonToken::JStr(x) => Some(x.clone()),
        _ => None,
    }
}

/// Clones a string member with the empty-string default, mirroring
/// [`str_member_or_empty`].
fn str_member_or_empty_of(ms: &Vec<JsonMember>, key: &str) -> (r: Option<String>)
    ensures
        match r {
            Some(x) => str_member_or_empty(ms.deep_view(), key@) == Some(x@),
            None => str_member_or_empty(ms.deep_view(), key@) is None,
        },
{
    match find_member(ms, key) {
        None => Some(String::new()),
        Some(i) => match &ms[i].value {
            JsonToken::JStr(x) => Some(x.clone()),
            JsonToken::JNull => Some(String::new()),
            _ => None,
        },
    }
}

/// Parses a JSON body as an Event payload, mirroring [`spec_parse_event`].
pub fn parse_event(body: &str) -> (r: Option<EventRequest>)
    ensures
        match r {
            Some(e) => spec_parse_event(body@) == Some(e@),
            None => spec_parse_event(body@) is None,
        },
{
    let chars = to_chars(body);
    let ms = match parse_obj(&chars) {
        None => {
            return None;
        },
        Some(ms) => ms,
    };
    let token = match str_member_or_empty_of(&ms, "token") {
        None => {
            return None;
        },
        Some(x) => x,
    };
    let team_id = match str_member_or_empty_of(&ms, "team_id") {
        None => {
            return None;
        },
        Some(x) => x,
    };
    let api_app_id = match str_member_or_empty_of(&ms, "api_app_id") {
        None => {
            return None;
        },
        Some(x) => x,
    };
    let event_type = match str_member_or_empty_of(&ms, "event_type") {
        None => {
            return None;
        },
        Some(x) => x,
    };
    let event = match find_member(&ms, "event") {
        None => String::new(),
        Some(i) => ms[i].raw.clone(),
    };
    let event_time: u64 = match find_member(&ms, "event_time") {
        None => 0,
        Some(i) => match &ms[i].value {
            JsonToken::JNum(x) => {
                let dchars = to_chars(x.as_str());
                match parse_u64_chars(&dchars) {
                    None => {
                        return None;
                    },
                    Some(v) => v,
                }
            },
            JsonToken::JNull => 0,
            _ => {
                return None;
            },
        },
    };
    let challenge: Option<String> = match find_member(&ms, "challenge") {
        None => None,
        Some(i) => match &ms[i].value {
            JsonToken::JStr(x) => Some(x.clone()),
            JsonToken::JNull => None,
            _ => {
                return None;
            },
        },
    };
    let e = EventRequest { token, team_id, api_app_id, event, event_type, event_time, challenge };
    proof {
        assert(spec_parse_event(body@) == Some(e@));
    }
    Some(e)
}


/// The action denoted by one element of the `actions` array: its
/// `action_id` when the element is an object carrying one as a string, the
/// empty string otherwise, plus the element's raw text.
pub open spec fn action_of(raw: Seq<char>) -> ActionModel {
    ActionModel {
        action_id: match parse_obj_text(raw) {
            Some(ams) => match str_field(ams, "action_id"@) {
                Some(x) => x,
                None => Seq::empty(),
            },
            None => Seq::empty(),
        },
        raw: raw,
    }
}

/// The Interactive payload denoted by a JSON body, if it parses and carries
/// the required fields: `token`, `trigger_id` and `response_url` as strings,
/// `team` and `user` as any values, `actions` as an array, and optionally
/// `channel`, `message` (any value) and `callback_id` (string or null).
pub open spec fn spec_parse_interactive(s: Seq<char>) -> Option<InteractiveModel> {
    match parse_obj_text(s) {
        None => None,
        Some(ms) => {
            let token = str_field(ms, "token"@);
            let trigger_id = str_field(ms, "trigger_id"@);
            let response_url = str_field(ms, "response_url"@);
            let team = member_lookup(ms, "team"@);
            let user = member_lookup(ms, "user"@);
            let acts = member_lookup(ms, "actions"@);
            let channel: Option<Seq<char>> = match member_lookup(ms, "channel"@) {
                None => None,
                Some(m) => if m.value is JNull {
                    None
                } else {
                    Some(m.raw)
                },
            };
            let message: Option<Seq<char>> = match member_lookup(ms, "message"@) {
                None => None,
                Some(m) => if m.value is JNull {
                    None
                } else {
                    Some(m.raw)
                },
            };
            let cb: Option<Option<Seq<char>>> = match member_lookup(ms, "callback_id"@) {
                None => Some(None),
                Some(m) => match m.value {
                    JTokenModel::JStr(x) => Some(Some(x)),
                    JTokenModel::JNull => Some(None),
                    _ => None,
                },
            };
            if token is Some && trigger_id is Some && response_url is Some && team is Some
                && user is Some && acts is Some && cb is Some {
                match parse_arr_text(acts.unwrap().raw) {
                    None => None,
                    Some(els) => Some(
                        InteractiveModel {
                            token: token.unwrap(),
                            team: team.unwrap().raw,
                            user: user.unwrap().raw,
                            channel: channel,
                            message: message,
                            actions: els.map_values(
                                |el: (JTokenModel, Seq<char>)| action_of(el.1),
                            ),
                            callback_id: cb.unwrap(),
                            trigger_id: trigger_id.unwrap(),
                            response_url: response_url.unwrap(),
                        },
                    ),
                }
            } else {
                None
            }
        },
    }
}

/// Builds the action for one array element, mirroring [`action_of`].
fn action_of_elem(raw: &String) -> (r: ActionPayload)
    ensures
        r@ == action_of(raw@),
{
    let chars = to_chars(raw.as_str());
    let action_id: String = match parse_obj(&chars) {
        None => String::new(),
        Some(ams) => match find_member(&ams, "action_id") {
            None => String::new(),
            Some(i) => match str_of_member(&ams, i) {
                None => String::new(),
                Some(x) => x,
            },
        },
    };
    ActionPayload { action_id, raw: raw.clone() }
}

/// The raw text of a member at `i`, with JSON `null` mapped to `None`.
fn raw_unless_null(ms: &Vec<JsonMember>, i: usize) -> (r: Option<String>)
    requires
        i < ms@.len(),
    ensures
        match r {
            Some(x) => !(ms.deep_view()[i as int].value is JNull) && x@ == ms.deep_view()[
                i as int
            ].raw,
            None => ms.deep_view()[i as int].value is JNull,
        },
{
    match &ms[i].value {
        JsonToken::JNull => None,
        _ => Some(ms[i].raw.clone()),
    }
}

/// Parses a JSON body as an Interactive payload, mirroring
/// [`spec_parse_interactive`].
pub fn parse_interactive(body: &str) -> (r: Option<InteractiveRequest>)
    ensures
        match r {
            Some(p) => spec_parse_interactive(body@) == Some(p@),
            None => spec_parse_interactive(body@) is None,
        },
{
    let chars = to_chars(body);
    let ms = match parse_obj(&chars) {
        None => {
            return None;
        },
        Some(ms) => ms,
    };
    let token = match find_member(&ms, "token") {
        None => {
            return None;
        },
        Some(i) => match str_of_member(&ms, i) {
            None => {
                return None;
            },
            Some(x) => x,
        },
    };
    let trigger_id = match find_member(&ms, "trigger_id") {
        None => {
            return None;
        },
        Some(i) => match str_of_member(&ms, i) {
            None => {
                return None;
            },
            Some(x) => x,
        },
    };
    let response_url = match find_member(&ms, "response_url") {
        None => {
            return None;
        },
        Some(i) => match str_of_member(&ms, i) {
            None => {
                return None;
            },
            Some(x) => x,
        },
    };
    let team = match find_member(&ms, "team") {
        None => {
            return None;
        },
        Some(i) => ms[i].raw.clone(),
    };
    let user = match find_member(&ms, "user") {
        None => {
            return None;
        },
        Some(i) => ms[i].raw.clone(),
    };
    let channel: Option<String> = match find_member(&ms, "channel") {
        None => None,
        Some(i) => raw_unless_null(&ms, i),
    };
    let message: Option<String> = match find_member(&ms, "message") {
        None => None,
        Some(i) => raw_unless_null(&ms, i),
    };
    let callback_id: Option<String> = match find_member(&ms, "callback_id") {
        None => None,
        Some(i) => match &ms[i].value {
            JsonToken::JStr(x) => Some(x.clone()),
            JsonToken::JNull => None,
            _ => {
                return None;
            },
        },
    };
    let acts_raw = match find_member(&ms, "actions") {
        None => {
            return None;
        },
        Some(i) => ms[i].raw.clone(),
    };
    let achars = to_chars(acts_raw.as_str());
    let els = match parse_arr(&achars) {
        None => {
            return None;
        },
        Some(els) => els,
    };
    let ghost elsm = els.deep_view();
    let mut actions: Vec<ActionPayload> = Vec::new();
    let na = els.len();
    let mut k: usize = 0;
    while k < na
        invariant
            na == els@.len(),
            k <= na,
            elsm == els.deep_view(),
            actions.deep_view() =~= elsm.subrange(0, k as int).map_values(
                |el: (JTokenModel, Seq<char>)| action_of(el.1),
            ),
        decreases na - k,
    {
        let a = action_of_elem(&els[k].raw);
        let ghost am = a@;
        let ghost prev = actions.deep_view();
        proof {
            assert(els@[k as int]@ == elsm[k as int]);
            assert(am == action_of(elsm[k as int].1));
        }
        actions.push(a);
        k = k + 1;
        proof {
            let f = |el: (JTokenModel, Seq<char>)| action_of(el.1);
            let rhs = elsm.subrange(0, k as int).map_values(f);
            assert(rhs.len() == k as int);
            assert(prev.len() == k - 1);
            assert(actions@.len() == k as int);
            assert(actions.deep_view() == Seq::new(actions@.len(), |j: int| actions@[j].deep_view()));
            assert(actions.deep_view().len() == k as int);
            assert forall|j: int| 0 <= j < k implies actions.deep_view()[j] == rhs[j] by {
                assert(rhs[j] == f(elsm.subrange(0, k as int)[j]));
                if j < k - 1 {
                    assert(actions.deep_view()[j] == prev[j]);
                    assert(prev[j] == elsm.subrange(0, k - 1).map_values(f)[j]);
                } else {
                    assert(actions.deep_view()[j] == am);
                }
            }
            assert(actions.deep_view() =~= rhs);
        }
    }
    proof {
        assert(elsm.subrange(0, na as int) =~= elsm);
    }
    let p = InteractiveRequest {
        token,
        team,
        user,
        channel,
        message,
        actions,
        callback_id,
        trigger_id,
        response_url,
    };
    proof {
        assert(spec_parse_interactive(body@) matches Some(m) && m == p@);
    }
    Some(p)
}


/// Two header names are the same up to ASCII case.
pub open spec fn header_matches(k: Seq<char>, key: Seq<char>) -> bool {
    lower_bytes(encode_utf8(k)) == lower_bytes(encode_utf8(key))
}

/// Case-insensitive header lookup: the first header whose name matches.
pub open spec fn header_lookup(hs: Seq<(Seq<char>, Seq<char>)>, key: Seq<char>) -> Option<
    Seq<char>,
>
    decreases hs.len(),
{
    if hs.len() == 0 {
        None
    } else if header_matches(hs[0].0, key) {
        Some(hs[0].1)
    } else {
        header_lookup(hs.drop_first(), key)
    }
}

/// The looked-up header value, or the empty string when absent.
pub open spec fn header_lookup_or_empty(hs: Seq<(Seq<char>, Seq<char>)>, key: Seq<char>) -> Seq<
    char,
> {
    match header_lookup(hs, key) {
        Some(v) => v,
        None => Seq::empty(),
    }
}

/// Case-insensitive header lookup, mirroring [`header_lookup`].
pub fn header_get(headers: &Vec<(String, String)>, key: &str) -> (r: Option<String>)
    ensures
        match r {
            Some(v) => header_lookup(pairs_view(headers@), key@) == Some(v@),
            None => header_lookup(pairs_view(headers@), key@) is None,
        },
{
    let target = ascii_lower(str_to_bytes(key).as_slice());
    let n = headers.len();
    let mut i: usize = 0;
    proof {
        assert(pairs_view(headers@).subrange(0, n as int) =~= pairs_view(headers@));
        assert(pairs_view(headers@).len() == n as int);
    }
    while i < n
        invariant
            n == headers@.len(),
            i <= n,
            target@ == lower_bytes(encode_utf8(key@)),
            header_lookup(pairs_view(headers@), key@) == header_lookup(
                pairs_view(headers@).subrange(i as int, n as int),
                key@,
            ),
        decreases n - i,
    {
        let ghost hv = pairs_view(headers@);
        let ghost suf = hv.subrange(i as int, n as int);
        proof {
            assert(hv.len() == n as int);
            assert(suf[0] == hv[i as int]);
            assert(hv[i as int] == (headers@[i as int].0@, headers@[i as int].1@));
            assert(suf.drop_first() =~= hv.subrange(i + 1, n as int));
        }
        let kb = ascii_lower(str_to_bytes(headers[i].0.as_str()).as_slice());
        if bytes_equal(kb.as_slice(), target.as_slice()) {
            let v = headers[i].1.clone();
            return Some(v);
        }
        i = i + 1;
    }
    proof {
        assert(pairs_view(headers@).subrange(n as int, n as int) =~= Seq::<
            (Seq<char>, Seq<char>),
        >::empty());
    }
    None
}

/// The outcome of classification: a typed body, or one of the two parse
/// failures the classifier can surface.
pub enum Classified {
    Body(BodyModel),
    BadJson,
    BadForm,
}

/// The content type announces JSON.
pub open spec fn is_json_ct(ct: Seq<char>) -> bool {
    contains_seq(lower_bytes(encode_utf8(ct)), encode_utf8("application/json"@))
}

/// The content type announces a form-encoded body.
pub open spec fn is_form_ct(ct: Seq<char>) -> bool {
    contains_seq(
        lower_bytes(encode_utf8(ct)),
        encode_utf8("application/x-www-form-urlencoded"@),
    )
}

/// The Command payload built from decoded form pairs: every absent field
/// defaults to the empty string.
pub open spec fn command_model_of(pairs: Seq<(Seq<char>, Seq<char>)>) -> CommandModel {
    CommandModel {
        token: form_get_or_empty(pairs, "token"@),
        team_id: form_get_or_empty(pairs, "team_id"@),
        team_domain: form_get_or_empty(pairs, "team_domain"@),
        channel_id: form_get_or_empty(pairs, "channel_id"@),
        channel_name: form_get_or_empty(pairs, "channel_name"@),
        user_id: form_get_or_empty(pairs, "user_id"@),
        user_name: form_get_or_empty(pairs, "user_name"@),
        command: form_get_or_empty(pairs, "command"@),
        text: form_get_or_empty(pairs, "text"@),
        response_url: form_get_or_empty(pairs, "response_url"@),
        trigger_id: form_get_or_empty(pairs, "trigger_id"@),
    }
}

/// The OAuth callback payload built from decoded form pairs.
pub open spec fn oauth_model_of(pairs: Seq<(Seq<char>, Seq<char>)>) -> OAuthModel {
    OAuthModel {
        code: form_get(pairs, "code"@),
        state: form_get(pairs, "state"@),
        error: form_get(pairs, "error"@),
    }
}

/// The classification of a body under a content type. Every input yields
/// exactly one outcome; `Raw` is the fallback for unrecognized content
/// types and unrecognized form bodies.
pub open spec fn spec_classify(ct: Seq<char>, body: Seq<char>) -> Classified {
    if is_json_ct(ct) {
        match spec_parse_event(body) {
            Some(e) => Classified::Body(BodyModel::Event(e)),
            None => Classified::BadJson,
        }
    } else if is_form_ct(ct) {
        match form_parse(body) {
            None => Classified::BadForm,
            Some(pairs) => match form_get(pairs, "payload"@) {
                Some(payload) => match spec_parse_interactive(payload) {
                    Some(p) => Classified::Body(BodyModel::Interactive(p)),
                    None => Classified::BadJson,
                },
                None => if form_get(pairs, "command"@) is Some {
                    Classified::Body(BodyModel::Command(command_model_of(pairs)))
                } else if form_get(pairs, "code"@) is Some || form_get(pairs, "error"@) is Some {
                    Classified::Body(BodyModel::OAuth(oauth_model_of(pairs)))
                } else {
                    Classified::Body(BodyModel::Raw(body))
                },
            },
        }
    } else {
        Classified::Body(BodyModel::Raw(body))
    }
}

/// Classifies a body under an explicit content type, mirroring
/// [`spec_classify`].
pub fn classify_body(content_type: &str, body: &str) -> (r: core::result::Result<
    SlackRequestBody,
    SlackError,
>)
    ensures
        match r {
            Ok(b) => spec_classify(content_type@, body@) == Classified::Body(b@),
            Err(SlackError::Json(_)) => spec_classify(content_type@, body@)
                == Classified::BadJson,
            Err(SlackError::Internal(_)) => spec_classify(content_type@, body@)
                == Classified::BadForm,
            Err(_) => false,
        },
{
    let ctb = ascii_lower(str_to_bytes(content_type).as_slice());
    let json_needle = "application/json".as_bytes_vec();
    if contains_bytes(ctb.as_slice(), json_needle.as_slice()) {
        match parse_event(body) {
            Some(e) => Ok(SlackRequestBody::Event(e)),
            None => Err(SlackError::Json(String::from_str("Failed to parse JSON body"))),
        }
    } else {
        let form_needle = "application/x-www-form-urlencoded".as_bytes_vec();
        if contains_bytes(ctb.as_slice(), form_needle.as_slice()) {
            let pairs = match parse_form_data(body) {
                Ok(pairs) => pairs,
                Err(e) => {
                    return Err(e);
                },
            };
            match form_lookup(&pairs, "payload") {
                Some(payload) => match parse_interactive(payload.as_str()) {
                    Some(p) => Ok(SlackRequestBody::Interactive(p)),
                    None => Err(SlackError::Json(String::from_str(
                        "Failed to parse interactive payload",
                    ))),
                },
                None => {
                    if form_lookup(&pairs, "command").is_some() {
                        let c = CommandRequest {
                            token: form_lookup_or_empty(&pairs, "token"),
                            team_id: form_lookup_or_empty(&pairs, "team_id"),
                            team_domain: form_lookup_or_empty(&pairs, "team_domain"),
                            channel_id: form_lookup_or_empty(&pairs, "channel_id"),
                            channel_name: form_lookup_or_empty(&pairs, "channel_name"),
                            user_id: form_lookup_or_empty(&pairs, "user_id"),
                            user_name: form_lookup_or_empty(&pairs, "user_name"),
                            command: form_lookup_or_empty(&pairs, "command"),
                            text: form_lookup_or_empty(&pairs, "text"),
                            response_url: form_lookup_or_empty(&pairs, "response_url"),
                            trigger_id: form_lookup_or_empty(&pairs, "trigger_id"),
                        };
                        Ok(SlackRequestBody::Command(c))
                    } else {
                        let code = form_lookup(&pairs, "code");
                        let error = form_lookup(&pairs, "error");
                        if code.is_some() || error.is_some() {
                            let state = form_lookup(&pairs, "state");
                            Ok(SlackRequestBody::OAuth(OAuthRequest { code, state, error }))
                        } else {
                            Ok(SlackRequestBody::Raw(String::from_str(body)))
                        }
                    }
                },
            }
        } else {
            Ok(SlackRequestBody::Raw(String::from_str(body)))
        }
    }
}

/// Classifies a raw request body, taking the content type from the headers
/// case-insensitively and treating an absent header as empty.
pub fn parse_body(body: &str, headers: &Vec<(String, String)>) -> (r: core::result::Result<
    SlackRequestBody,
    SlackError,
>)
    ensures
        ({
            let ct = header_lookup_or_empty(pairs_view(headers@), "content-type"@);
            match r {
                Ok(b) => spec_classify(ct, body@) == Classified::Body(b@),
                Err(SlackError::Json(_)) => spec_classify(ct, body@) == Classified::BadJson,
                Err(SlackError::Internal(_)) => spec_classify(ct, body@)
                    == Classified::BadForm,
                Err(_) => false,
            }
        }),
{
    let ct = match header_get(headers, "content-type") {
        Some(v) => v,
        None => String::new(),
    };
    classify_body(ct.as_str(), body)
}

/// The classification law: every pair of a content type and a body yields
/// exactly one outcome; a content type that announces neither JSON nor a
/// form falls back to the raw body; JSON content never yields anything but
/// an Event payload or a JSON parse failure. Determinism is inherent:
/// [`spec_classify`] is a function of the content type and body alone, and
/// [`classify_body`] returns exactly its value.
pub proof fn classification_total(ct: Seq<char>, body: Seq<char>)
    ensures
        spec_classify(ct, body) matches Classified::Body(_) || spec_classify(ct, body)
            == Classified::BadJson || spec_classify(ct, body) == Classified::BadForm,
        !is_json_ct(ct) && !is_form_ct(ct) ==> spec_classify(ct, body) == Classified::Body(
            BodyModel::Raw(body),
        ),
        is_json_ct(ct) ==> (spec_classify(ct, body) matches Classified::Body(b) ==> b is Event),
{
}

/// The command-defaulting law: a form body whose pairs carry no
/// `channel_name` yields a Command payload whose `channel_name` is the
/// empty string, not a parse failure; the same holds for every other
/// command field.
pub proof fn command_defaulting(pairs: Seq<(Seq<char>, Seq<char>)>)
    ensures
        form_get(pairs, "channel_name"@) is None ==> command_model_of(pairs).channel_name
            == Seq::<char>::empty(),
        form_get(pairs, "text"@) is None ==> command_model_of(pairs).text
            == Seq::<char>::empty(),
{
}

} // verus!
