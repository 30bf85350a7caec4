use slack_app::classify::{classify_body, parse_body, parse_event, parse_u64_chars};
use slack_app::error::SlackError;
use slack_app::form::{parse_form_data, form_lookup};
use slack_app::request::SlackRequestBody;

fn headers(pairs: &[(&str, &str)]) -> Vec<(String, String)> {
    pairs.iter().map(|(k, v)| (k.to_string(), v.to_string())).collect()
}

#[test]
fn json_content_classifies_as_event() {
    let body = "{\"token\":\"tok\",\"team_id\":\"T1\",\"api_app_id\":\"A1\",\"event\":{\"type\":\"app_mention\",\"user\":\"U1\"},\"event_type\":\"app_mention\",\"event_time\":1700000000}";
    match classify_body("application/json", body).unwrap() {
        SlackRequestBody::Event(e) => {
            assert_eq!(e.token, "tok");
            assert_eq!(e.team_id, "T1");
            assert_eq!(e.api_app_id, "A1");
            assert_eq!(e.event_type, "app_mention");
            assert_eq!(e.event_time, 1700000000);
            assert!(e.challenge.is_none());
            assert_eq!(e.event, "{\"type\":\"app_mention\",\"user\":\"U1\"}");
        },
        _ => panic!("expected an Event body"),
    }
}

#[test]
fn url_verification_challenge_is_kept() {
    // the canonical verification body carries nothing but its type and the
    // challenge; every other field defaults
    let body = "{\"type\":\"url_verification\",\"challenge\":\"abc123\"}";
    match classify_body("application/json", body).unwrap() {
        SlackRequestBody::Event(e) => {
            assert_eq!(e.challenge.as_deref(), Some("abc123"));
            assert_eq!(e.token, "");
            assert_eq!(e.event_type, "");
            assert_eq!(e.event_time, 0);
        },
        _ => panic!("expected an Event body"),
    }
}

#[test]
fn malformed_json_is_surfaced_not_swallowed() {
    let r = classify_body("application/json", "{not json");
    assert!(matches!(r, Err(SlackError::Json(_))));
}

#[test]
fn absent_event_fields_default_instead_of_failing() {
    // no event_time, no event: both default
    let body = "{\"token\":\"t\",\"team_id\":\"T\",\"api_app_id\":\"A\",\"event_type\":\"x\"}";
    match classify_body("application/json", body).unwrap() {
        SlackRequestBody::Event(e) => {
            assert_eq!(e.event_time, 0);
            assert_eq!(e.event, "");
            assert_eq!(e.event_type, "x");
        },
        _ => panic!("expected an Event body"),
    }
}

#[test]
fn wrongly_typed_event_field_is_an_error() {
    // a numeric token is neither a string nor null
    let body = "{\"token\":7,\"event_type\":\"x\"}";
    let r = classify_body("application/json", body);
    assert!(matches!(r, Err(SlackError::Json(_))));
}

#[test]
fn command_form_classifies_with_defaults() {
    // channel_name is absent: it defaults to "", it is not an error.
    let body = "token=t&command=/hello&text=&channel_id=C1&user_id=U1&response_url=R&trigger_id=T1";
    match classify_body("application/x-www-form-urlencoded", body).unwrap() {
        SlackRequestBody::Command(c) => {
            assert_eq!(c.token, "t");
            assert_eq!(c.command, "/hello");
            assert_eq!(c.text, "");
            assert_eq!(c.channel_id, "C1");
            assert_eq!(c.channel_name, "");
            assert_eq!(c.user_id, "U1");
            assert_eq!(c.user_name, "");
            assert_eq!(c.response_url, "R");
            assert_eq!(c.trigger_id, "T1");
        },
        _ => panic!("expected a Command body"),
    }
}

#[test]
fn classification_is_idempotent() {
    let body = "token=t&command=/hi&text=x";
    let ct = "application/x-www-form-urlencoded";
    let (a, b) = (classify_body(ct, body).unwrap(), classify_body(ct, body).unwrap());
    match (a, b) {
        (SlackRequestBody::Command(x), SlackRequestBody::Command(y)) => {
            assert_eq!(x.token, y.token);
            assert_eq!(x.command, y.command);
            assert_eq!(x.text, y.text);
        },
        _ => panic!("expected two Command bodies"),
    }
}

#[test]
fn interactive_payload_takes_priority() {
    // "payload" wins over "command" in the same form body.
    let payload = "{\"token\":\"t\",\"team\":{\"id\":\"T\"},\"user\":{\"id\":\"U\"},\"actions\":[{\"action_id\":\"click_a\"},{\"action_id\":\"click_b\"}],\"trigger_id\":\"Tr\",\"response_url\":\"R\"}";
    let encoded: String = payload.bytes().map(|b| format!("%{:02X}", b)).collect();
    let body = format!("payload={}&command=/x", encoded);
    match classify_body("application/x-www-form-urlencoded", &body).unwrap() {
        SlackRequestBody::Interactive(p) => {
            assert_eq!(p.token, "t");
            assert_eq!(p.actions.len(), 2);
            assert_eq!(p.actions[0].action_id, "click_a");
            assert_eq!(p.actions[1].action_id, "click_b");
            assert!(p.channel.is_none());
            assert!(p.callback_id.is_none());
        },
        _ => panic!("expected an Interactive body"),
    }
}

#[test]
fn oauth_callback_form_classifies() {
    let body = "code=abc&state=xyz";
    match classify_body("application/x-www-form-urlencoded", body).unwrap() {
        SlackRequestBody::OAuth(o) => {
            assert_eq!(o.code.as_deref(), Some("abc"));
            assert_eq!(o.state.as_deref(), Some("xyz"));
            assert!(o.error.is_none());
        },
        _ => panic!("expected an OAuth body"),
    }
}

#[test]
fn oauth_error_form_classifies() {
    let body = "error=access_denied";
    match classify_body("application/x-www-form-urlencoded", body).unwrap() {
        SlackRequestBody::OAuth(o) => {
            assert_eq!(o.error.as_deref(), Some("access_denied"));
            assert!(o.code.is_none());
        },
        _ => panic!("expected an OAuth body"),
    }
}

#[test]
fn unknown_form_body_falls_back_to_raw() {
    let body = "foo=bar";
    match classify_body("application/x-www-form-urlencoded", body).unwrap() {
        SlackRequestBody::Raw(s) => assert_eq!(s, body),
        _ => panic!("expected a Raw body"),
    }
}

#[test]
fn unknown_content_type_falls_back_to_raw() {
    match classify_body("text/plain", "hello").unwrap() {
        SlackRequestBody::Raw(s) => assert_eq!(s, "hello"),
        _ => panic!("expected a Raw body"),
    }
}

#[test]
fn empty_content_type_falls_back_to_raw() {
    match classify_body("", "x").unwrap() {
        SlackRequestBody::Raw(s) => assert_eq!(s, "x"),
        _ => panic!("expected a Raw body"),
    }
}

#[test]
fn content_type_lookup_is_case_insensitive() {
    let hs = headers(&[("Content-Type", "application/x-www-form-urlencoded")]);
    let body = "token=t&command=/c";
    assert!(matches!(parse_body(body, &hs).unwrap(), SlackRequestBody::Command(_)));
}

#[test]
fn content_type_with_charset_still_matches() {
    let r = classify_body("application/json; charset=utf-8", "{bad");
    assert!(matches!(r, Err(SlackError::Json(_))));
}

#[test]
fn form_values_are_percent_decoded() {
    let pairs = parse_form_data("text=hello%20world&plus=a%2Bb").unwrap();
    assert_eq!(form_lookup(&pairs, "text").as_deref(), Some("hello world"));
    assert_eq!(form_lookup(&pairs, "plus").as_deref(), Some("a+b"));
}

#[test]
fn form_decoding_is_lenient_about_stray_percent() {
    let pairs = parse_form_data("a=100%&b=%zz").unwrap();
    assert_eq!(form_lookup(&pairs, "a").as_deref(), Some("100%"));
    assert_eq!(form_lookup(&pairs, "b").as_deref(), Some("%zz"));
}

#[test]
fn form_repeated_key_last_wins() {
    let pairs = parse_form_data("k=first&k=second").unwrap();
    assert_eq!(form_lookup(&pairs, "k").as_deref(), Some("second"));
}

#[test]
fn form_piece_without_equals_is_skipped() {
    let pairs = parse_form_data("justakey&k=v").unwrap();
    assert!(form_lookup(&pairs, "justakey").is_none());
    assert_eq!(form_lookup(&pairs, "k").as_deref(), Some("v"));
}

#[test]
fn invalid_utf8_in_form_is_an_internal_error() {
    let r = parse_form_data("k=%FF%FE");
    assert!(matches!(r, Err(SlackError::Internal(_))));
}

#[test]
fn json_string_escapes_are_decoded() {
    let body = "{\"token\":\"a\\n\\t\\\"b\\\\\",\"team_id\":\"\\u0041\\u00e9\",\"api_app_id\":\"A\",\"event\":{},\"event_type\":\"x\",\"event_time\":1}";
    let e = parse_event(body).unwrap();
    assert_eq!(e.token, "a\n\t\"b\\");
    assert_eq!(e.team_id, "A\u{e9}");
}

#[test]
fn event_time_must_be_an_unsigned_integer() {
    let body = "{\"token\":\"t\",\"team_id\":\"T\",\"api_app_id\":\"A\",\"event\":{},\"event_type\":\"x\",\"event_time\":-5}";
    assert!(parse_event(body).is_none());
}

#[test]
fn decimal_parsing_matches_expected_values() {
    let chars: Vec<char> = "18446744073709551615".chars().collect();
    assert_eq!(parse_u64_chars(&chars), Some(u64::MAX));
    let chars: Vec<char> = "18446744073709551616".chars().collect();
    assert_eq!(parse_u64_chars(&chars), None);
    let chars: Vec<char> = "0".chars().collect();
    assert_eq!(parse_u64_chars(&chars), Some(0));
    let chars: Vec<char> = "".chars().collect();
    assert_eq!(parse_u64_chars(&chars), None);
}
