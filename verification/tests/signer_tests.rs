use dta4hana::encoding::{percent_decode_bytes, percent_encode_bytes, u64_to_decimal};
use dta4hana::error::DtaError;
use dta4hana::signer::{build_oauth_signature, build_oauth_signature_with, QueryParam};

fn encode_str(s: &str) -> String {
    let v: Vec<u8> = s.as_bytes().to_vec();
    String::from_utf8(percent_encode_bytes(&v)).unwrap()
}

#[test]
fn percent_encoding_golden_values() {
    assert_eq!(encode_str("abc-XYZ_0.9*"), "abc-XYZ_0.9*");
    assert_eq!(encode_str("a b"), "a+b");
    assert_eq!(encode_str("a+b"), "a%2Bb");
    assert_eq!(encode_str("2022-01-01T00:00:00Z"), "2022-01-01T00%3A00%3A00Z");
    assert_eq!(encode_str("created_at,public_metrics"), "created_at%2Cpublic_metrics");
    assert_eq!(encode_str(""), "");
}

#[test]
fn percent_encoding_round_trips() {
    let samples: Vec<&str> = vec![
        "",
        "plain",
        "a b c",
        "1+1=2&x=y",
        "100%",
        "tweet.fields",
        "%%%",
    ];
    for s in samples {
        let raw: Vec<u8> = s.as_bytes().to_vec();
        let enc = percent_encode_bytes(&raw);
        let dec = percent_decode_bytes(&enc).expect("encoded form must decode");
        assert_eq!(dec, raw);
    }
}

#[test]
fn percent_decoding_rejects_malformed_escapes() {
    let bad: Vec<u8> = b"abc%2".to_vec();
    assert!(percent_decode_bytes(&bad).is_none());
    let bad2: Vec<u8> = b"%zz".to_vec();
    assert!(percent_decode_bytes(&bad2).is_none());
}

#[test]
fn query_param_packages_raw_and_encoded_value() {
    let q = QueryParam::new("start_time", "2022-01-01T00:00:00Z");
    assert_eq!(q.key, "start_time");
    assert_eq!(q.value, "2022-01-01T00:00:00Z");
    assert_eq!(q.encoded_value, "2022-01-01T00%3A00%3A00Z");
}

#[test]
fn decimal_rendering_is_exact() {
    assert_eq!(u64_to_decimal(0), "0");
    assert_eq!(u64_to_decimal(7), "7");
    assert_eq!(u64_to_decimal(1670000000), "1670000000");
    assert_eq!(u64_to_decimal(u64::MAX), "18446744073709551615");
}

#[test]
fn signer_is_deterministic_for_fixed_nonce_and_timestamp() {
    let params = vec![QueryParam::new("max_results", "100"), QueryParam::new("id", "42")];
    let h1 = build_oauth_signature_with(
        "tok",
        "toksec",
        "ck",
        "cs",
        "https://api.twitter.com/1.1/favorites/destroy.json",
        "POST",
        &params,
        "fixed-nonce",
        "1670000000",
    );
    let h2 = build_oauth_signature_with(
        "tok",
        "toksec",
        "ck",
        "cs",
        "https://api.twitter.com/1.1/favorites/destroy.json",
        "POST",
        &params,
        "fixed-nonce",
        "1670000000",
    );
    assert_eq!(h1, h2);
}

#[test]
fn signer_is_order_independent_in_query_params() {
    let a = vec![
        QueryParam::new("max_results", "100"),
        QueryParam::new("tweet.fields", "created_at,public_metrics,attachments"),
        QueryParam::new("start_time", "2022-01-01T00:00:00Z"),
    ];
    let b = vec![
        QueryParam::new("start_time", "2022-01-01T00:00:00Z"),
        QueryParam::new("max_results", "100"),
        QueryParam::new("tweet.fields", "created_at,public_metrics,attachments"),
    ];
    let ha = build_oauth_signature_with(
        "tok", "toksec", "ck", "cs", "https://api.twitter.com/2/users/123/tweets", "GET", &a,
        "nonce", "1670000000",
    );
    let hb = build_oauth_signature_with(
        "tok", "toksec", "ck", "cs", "https://api.twitter.com/2/users/123/tweets", "GET", &b,
        "nonce", "1670000000",
    );
    assert_eq!(ha, hb);
}

#[test]
fn signer_matches_independently_computed_signature() {
    // rebuild the expected header by hand, straight from the scheme
    let url = "https://api.twitter.com/1.1/statuses/destroy/42.json";
    let method = "POST";
    let nonce = "fixed-nonce";
    let ts = "1670000000";
    let param_string = format!(
        "oauth_consumer_key={}&oauth_nonce={}&oauth_signature_method=HMAC-SHA1&oauth_timestamp={}&oauth_token={}&oauth_version=1.0",
        "ck", nonce, ts, "tok"
    );
    let base = format!("{}&{}&{}", method, encode_str(url), encode_str(&param_string));
    let key = format!("{}&{}", encode_str("cs"), encode_str("toksec"));
    let digest = hmac_sha1::hmac_sha1(key.as_bytes(), base.as_bytes());
    let signature = encode_str(&base64::encode(digest));
    let expected = format!(
        "OAuth oauth_consumer_key=ck,oauth_nonce={},oauth_signature={},oauth_signature_method=HMAC-SHA1,oauth_timestamp={},oauth_token=tok,oauth_version=1.0",
        nonce, signature, ts
    );
    let params: Vec<QueryParam> = vec![];
    let got = build_oauth_signature_with(
        "tok", "toksec", "ck", "cs", url, method, &params, nonce, ts,
    );
    assert_eq!(got, expected);
}

#[test]
fn fresh_signatures_differ_between_calls() {
    let params: Vec<QueryParam> = vec![];
    let h1 = build_oauth_signature(
        "tok", "toksec", "ck", "cs", "https://api.twitter.com/2/users/1/tweets", "GET", &params,
    );
    let h2 = build_oauth_signature(
        "tok", "toksec", "ck", "cs", "https://api.twitter.com/2/users/1/tweets", "GET", &params,
    );
    assert!(h1.starts_with("OAuth oauth_consumer_key=ck,oauth_nonce="));
    assert!(h2.starts_with("OAuth oauth_consumer_key=ck,oauth_nonce="));
    assert_ne!(h1, h2);
}

#[test]
fn error_descriptions_name_each_kind() {
    assert_eq!(DtaError::TransportError.describe(), "transport error");
    assert_eq!(DtaError::SigningPrerequisiteMissing.describe(), "credential is not loaded");
    assert_eq!(DtaError::CredentialExchangeFailed.describe(), "expected token fields are missing");
    let e = DtaError::ActionFailed { id: String::from("42") };
    assert_eq!(e.describe(), "an action failed");
    assert_eq!(e, DtaError::ActionFailed { id: String::from("42") });
    assert_ne!(e, DtaError::ActionFailed { id: String::from("43") });
    assert_ne!(DtaError::TransportError, DtaError::CredentialExchangeFailed);
}
