use worker::credentials::AwsCreds;
use worker::signer::{collapse_whitespace, new_signed_request, UtcTime};

fn creds(host: &str) -> AwsCreds {
    AwsCreds::create_and_save(
        host.to_string(),
        "AKIDEXAMPLE".to_string(),
        "wJalrXUtnFEMI/K7MDENG+bPxRfiCYEXAMPLEKEY".to_string(),
    )
}

#[test]
fn signing_golden_vector() {
    let time = UtcTime::new(2022, 4, 17, 9, 19, 35).unwrap();
    let body = br#"{"allEntries":{"unreadOnly":false}}"#;
    let req = new_signed_request(body, &creds("abcdefgh.lambda-url.eu-west-1.on.aws"), &time);
    assert_eq!(
        req.authorization,
        "AWS4-HMAC-SHA256 Credential=AKIDEXAMPLE/20220417/eu-west-1/lambda/aws4_request, \
         SignedHeaders=content-type;host;x-amz-date, \
         Signature=740fac4e115f671cdc6f69a0a14348c38f8e6f76683b931b75b09b76797b8fa9"
    );
    assert_eq!(req.method, "POST");
    assert_eq!(req.url, "https://abcdefgh.lambda-url.eu-west-1.on.aws/");
    assert_eq!(req.host, "abcdefgh.lambda-url.eu-west-1.on.aws");
    assert_eq!(req.content_type, "application/json");
    assert_eq!(req.amz_date, "20220417T091935Z");
    assert_eq!(req.body, body.to_vec());
}

#[test]
fn signing_is_deterministic_and_input_sensitive() {
    let time = UtcTime::new(2022, 4, 17, 9, 19, 35).unwrap();
    let later = UtcTime::new(2022, 4, 17, 9, 19, 36).unwrap();
    let c = creds("h.example");
    let a = new_signed_request(b"x", &c, &time);
    let b = new_signed_request(b"x", &c, &time);
    assert_eq!(a.authorization, b.authorization);
    assert_ne!(a.authorization, new_signed_request(b"y", &c, &time).authorization);
    assert_ne!(a.authorization, new_signed_request(b"x", &c, &later).authorization);
}

#[test]
fn host_whitespace_is_collapsed_in_signature() {
    let time = UtcTime::new(2022, 4, 17, 9, 19, 35).unwrap();
    let plain = new_signed_request(b"x", &creds("a b"), &time);
    let spaced = new_signed_request(b"x", &creds("  a \t\n b  "), &time);
    let sig = |s: &str| s.rsplit("Signature=").next().unwrap().to_string();
    let s = sig(&plain.authorization);
    assert_eq!(s.len(), 64);
    assert!(s.chars().all(|c| c.is_ascii_digit() || ('a'..='f').contains(&c)));
    assert_eq!(sig(&plain.authorization), sig(&spaced.authorization));
}

#[test]
fn collapse_whitespace_cases() {
    assert_eq!(collapse_whitespace(""), "");
    assert_eq!(collapse_whitespace("   "), "");
    assert_eq!(collapse_whitespace("abc"), "abc");
    assert_eq!(collapse_whitespace("  a  b\t\nc  "), "a b c");
    assert_eq!(collapse_whitespace("a\u{00A0}\u{3000}b"), "a b");
}

#[test]
fn timestamps() {
    let t = UtcTime::new(987, 1, 2, 3, 4, 5).unwrap();
    assert_eq!(t.amz_date(), "09870102T030405Z");
    assert_eq!(t.date_stamp(), "09870102");
    let t = UtcTime::new(2024, 12, 31, 23, 59, 59).unwrap();
    assert_eq!(t.amz_date(), "20241231T235959Z");
    assert!(UtcTime::new(10000, 1, 1, 0, 0, 0).is_none());
    assert!(UtcTime::new(2024, 13, 1, 0, 0, 0).is_none());
    assert!(UtcTime::new(2024, 0, 1, 0, 0, 0).is_none());
    assert!(UtcTime::new(2024, 1, 0, 0, 0, 0).is_none());
    assert!(UtcTime::new(2024, 1, 32, 0, 0, 0).is_none());
    assert!(UtcTime::new(2024, 1, 1, 24, 0, 0).is_none());
    assert!(UtcTime::new(2024, 1, 1, 0, 60, 0).is_none());
    assert!(UtcTime::new(2024, 1, 1, 0, 0, 60).is_none());
    assert!(UtcTime::new(2024, 2, 29, 0, 0, 0).is_some());
    assert!(UtcTime::new(2023, 2, 29, 0, 0, 0).is_none());
    assert!(UtcTime::new(2000, 2, 29, 0, 0, 0).is_some());
    assert!(UtcTime::new(1900, 2, 29, 0, 0, 0).is_none());
    assert!(UtcTime::new(2024, 2, 30, 0, 0, 0).is_none());
    assert!(UtcTime::new(2024, 4, 31, 0, 0, 0).is_none());
    assert!(UtcTime::new(2024, 4, 30, 0, 0, 0).is_some());
}
