use slack_app::error::SlackError;
use slack_app::signature::{sign_request, verify_signature, verify_signature_fresh};

#[test]
fn sign_verify_round_trip() {
    let secret = "8f742231b10e8888abcd99yyyzzz85a5";
    let ts = "1531420618";
    let body = "token=t&command=/hello&text=hi";
    let sig = sign_request(secret, ts, body);
    assert!(verify_signature(secret, ts, body, sig.as_str()).is_ok());
}

#[test]
fn signature_has_version_prefix_and_hex_digest() {
    let sig = sign_request("secret", "123", "body");
    assert!(sig.starts_with("v0="));
    // 32 HMAC-SHA256 bytes expand to 64 lowercase hex digits.
    assert_eq!(sig.len(), 3 + 64);
    assert!(sig[3..].chars().all(|c| c.is_ascii_hexdigit() && !c.is_ascii_uppercase()));
}

#[test]
fn verify_rejects_altered_body() {
    let secret = "s3cr3t";
    let ts = "1700000000";
    let sig = sign_request(secret, ts, "hello");
    let r = verify_signature(secret, ts, "hellp", sig.as_str());
    assert!(matches!(r, Err(SlackError::InvalidSignature)));
}

#[test]
fn verify_rejects_altered_timestamp() {
    let secret = "s3cr3t";
    let sig = sign_request(secret, "1700000000", "hello");
    let r = verify_signature(secret, "1700000001", "hello", sig.as_str());
    assert!(matches!(r, Err(SlackError::InvalidSignature)));
}

#[test]
fn verify_rejects_altered_signature() {
    let secret = "s3cr3t";
    let ts = "1700000000";
    let sig = sign_request(secret, ts, "hello");
    let mut tampered = sig.clone();
    let last = tampered.pop().unwrap();
    tampered.push(if last == '0' { '1' } else { '0' });
    let r = verify_signature(secret, ts, "hello", tampered.as_str());
    assert!(matches!(r, Err(SlackError::InvalidSignature)));
}

#[test]
fn verify_rejects_wrong_secret() {
    let sig = sign_request("secret-a", "1700000000", "hello");
    let r = verify_signature("secret-b", "1700000000", "hello", sig.as_str());
    assert!(matches!(r, Err(SlackError::InvalidSignature)));
}

#[test]
fn signatures_depend_on_every_input() {
    let base = sign_request("secret", "123", "body");
    assert_ne!(base, sign_request("secres", "123", "body"));
    assert_ne!(base, sign_request("secret", "124", "body"));
    assert_ne!(base, sign_request("secret", "123", "bodz"));
}

#[test]
fn freshness_window_blocks_replayed_timestamps() {
    let secret = "s3cr3t";
    let body = "token=t";
    let sig = sign_request(secret, "1000", body);
    // inside the window
    assert!(verify_signature_fresh(secret, "1000", body, sig.as_str(), 1200, 300).is_ok());
    // outside the window: correctly signed but stale
    let r = verify_signature_fresh(secret, "1000", body, sig.as_str(), 1400, 300);
    assert!(matches!(r, Err(SlackError::InvalidSignature)));
    // a timestamp that is not a decimal number never passes
    let sig2 = sign_request(secret, "not-a-number", body);
    let r2 = verify_signature_fresh(secret, "not-a-number", body, sig2.as_str(), 1000, 300);
    assert!(matches!(r2, Err(SlackError::InvalidSignature)));
}
