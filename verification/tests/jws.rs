use base64::engine::general_purpose::URL_SAFE_NO_PAD;
use base64::Engine;
use hypershunt::oidc::claims::{
    extract_groups_claim, extract_groups_claim_from_json, extract_optional_string_claim,
    extract_string_claim, Claim, Claims,
};
use hypershunt::oidc::jws::{jwks_signature_verifies, parse_compact_jws, JwsError};
use openidconnect::PrivateSigningKey;

const SECRET: &[u8] = b"a secret that nobody else knows!";

// Build a compact JWS from raw header/payload/signature bytes.
// The signature is not cryptographically valid; parse_compact_jws
// only parses structure and the alg field, it does not verify.
fn make_jws(header: &[u8], payload: &[u8], sig: &[u8]) -> String {
    format!(
        "{}.{}.{}",
        URL_SAFE_NO_PAD.encode(header),
        URL_SAFE_NO_PAD.encode(payload),
        URL_SAFE_NO_PAD.encode(sig),
    )
}

// A compact JWS with a valid keyed-hash signature.
fn signed_jws(header: &str, payload: &str) -> String {
    let input = format!("{}.{}", URL_SAFE_NO_PAD.encode(header), URL_SAFE_NO_PAD.encode(payload));
    let sig = openidconnect::core::CoreHmacKey::new(SECRET)
        .sign(&openidconnect::core::CoreJwsSigningAlgorithm::HmacSha256, input.as_bytes())
        .unwrap();
    format!("{input}.{}", URL_SAFE_NO_PAD.encode(sig))
}

fn jwk(secret: &[u8], kid: Option<&str>) -> String {
    let k = URL_SAFE_NO_PAD.encode(secret);
    match kid {
        Some(id) => format!(r#"{{"kty":"oct","kid":"{id}","k":"{k}"}}"#),
        None => format!(r#"{{"kty":"oct","k":"{k}"}}"#),
    }
}

fn json(text: &str) -> Claims {
    Claims::parse(text.as_bytes()).unwrap()
}

#[test]
fn parse_compact_jws_success_rs256() {
    let token = make_jws(br#"{"alg":"RS256"}"#, br#"{"sub":"user"}"#, b"\x00\x01\x02");
    let parsed = parse_compact_jws(&token).ok().unwrap();
    assert_eq!(parsed.kid, None);
    assert_eq!(parsed.payload.text("sub").as_deref(), Some("user"));
    // signed_input = "header.payload" (the two base64url segments)
    assert!(parsed.signed_input.contains('.'));
    assert_eq!(parsed.signature_bytes, b"\x00\x01\x02");
}

#[test]
fn parse_compact_jws_with_kid() {
    let token =
        make_jws(br#"{"alg":"RS256","kid":"mykey"}"#, br#"{"sub":"u"}"#, b"\xAB\xCD");
    let parsed = parse_compact_jws(&token).ok().unwrap();
    assert_eq!(parsed.kid.as_deref(), Some("mykey"));
}

#[test]
fn parse_compact_jws_too_few_parts() {
    assert!(parse_compact_jws("a.b").is_err());
}

#[test]
fn parse_compact_jws_too_many_parts() {
    assert!(parse_compact_jws("a.b.c.d").is_err());
}

#[test]
fn parse_compact_jws_bad_base64_header() {
    // '!' is not valid base64url
    assert!(parse_compact_jws("!!!.e30.AAAA").is_err());
}

#[test]
fn parse_compact_jws_bad_json_header() {
    let h = URL_SAFE_NO_PAD.encode(b"not-json");
    let token = format!("{h}.e30.AAAA");
    assert!(parse_compact_jws(&token).is_err());
}

#[test]
fn parse_compact_jws_missing_alg() {
    let token = make_jws(br#"{"kid":"x"}"#, b"{}", b"\x00");
    assert!(parse_compact_jws(&token).is_err());
}

#[test]
fn parse_compact_jws_unknown_alg() {
    let token = make_jws(br#"{"alg":"BOGUS"}"#, b"{}", b"\x00");
    assert!(parse_compact_jws(&token).is_err());
}

#[test]
fn parse_compact_jws_bad_base64_payload() {
    let h = URL_SAFE_NO_PAD.encode(br#"{"alg":"RS256"}"#);
    let token = format!("{h}.!!!.AAAA");
    assert!(parse_compact_jws(&token).is_err());
}

#[test]
fn parse_compact_jws_bad_json_payload() {
    let h = URL_SAFE_NO_PAD.encode(br#"{"alg":"RS256"}"#);
    let p = URL_SAFE_NO_PAD.encode(b"not-json");
    let token = format!("{h}.{p}.AAAA");
    assert!(parse_compact_jws(&token).is_err());
}

#[test]
fn groups_from_json_array_filters_empty_strings() {
    let claims = json(r#"{"g": ["a", "", "b", ""]}"#);
    assert_eq!(extract_groups_claim_from_json("g", &claims), ["a", "b"]);
}

#[test]
fn groups_from_json_array_skips_non_string_items() {
    let claims = json(r#"{"g": ["a", 42, true, "b"]}"#);
    assert_eq!(extract_groups_claim_from_json("g", &claims), ["a", "b"]);
}

#[test]
fn groups_from_json_missing_claim_returns_empty() {
    assert!(extract_groups_claim_from_json("g", &json("{}")).is_empty());
}

#[test]
fn groups_from_json_non_string_non_array_returns_empty() {
    let claims = json(r#"{"g": 42}"#);
    assert!(extract_groups_claim_from_json("g", &claims).is_empty());
}

#[test]
fn missing_groups_claim_returns_empty() {
    let claims = json("{}");
    assert!(extract_groups_claim("groups", &claims).is_empty());
}

#[test]
fn missing_username_claim_falls_back_to_default() {
    let claims = json("{}");
    let s = extract_string_claim("preferred_username", &claims, "alice");
    assert_eq!(s, "alice");
}

#[test]
fn extract_groups_claim_from_json_array_and_string() {
    // Array form (Keycloak/Authelia).
    let v = json(r#"{"groups": ["admins", "devs"]}"#);
    assert_eq!(extract_groups_claim_from_json("groups", &v), vec!["admins", "devs"]);
    // Space-delimited string form (some SAML-style IdPs).
    let v = json(r#"{"groups": "admins devs"}"#);
    assert_eq!(extract_groups_claim_from_json("groups", &v), vec!["admins", "devs"]);
    // Missing.
    let v = json("{}");
    assert!(extract_groups_claim_from_json("groups", &v).is_empty());
}

#[test]
fn jws_errors_are_told_apart() {
    let kind = |t: &str| parse_compact_jws(t).err().unwrap();
    let rs256 = URL_SAFE_NO_PAD.encode(br#"{"alg":"RS256"}"#);
    assert_eq!(kind(""), JwsError::Malformed);
    assert_eq!(kind("a.b"), JwsError::Malformed);
    assert_eq!(kind("a.b.c.d"), JwsError::TooManySegments);
    assert_eq!(kind("!!!.e30.AAAA"), JwsError::HeaderBase64);
    assert_eq!(kind(&format!("{rs256}.!!!.AAAA")), JwsError::PayloadBase64);
    assert_eq!(kind(&format!("{rs256}.e30.!!!")), JwsError::SignatureBase64);
    assert_eq!(kind("bm90.e30.AAAA"), JwsError::HeaderJson);
    assert_eq!(kind(&format!("{rs256}.bm90.AAAA")), JwsError::PayloadJson);
    assert_eq!(kind("e30.e30.AAAA"), JwsError::MissingAlg);
    let bogus = make_jws(br#"{"alg":"BOGUS"}"#, b"{}", b"\x00");
    assert_eq!(kind(&bogus), JwsError::UnknownAlg);
}

#[test]
fn signed_text_is_what_stands_before_the_second_dot() {
    let token = signed_jws(r#"{"alg":"HS256"}"#, r#"{"sub":"u"}"#);
    let parsed = parse_compact_jws(&token).ok().unwrap();
    assert_eq!(parsed.alg, "HS256");
    assert_eq!(parsed.signed_input, token.rsplit_once('.').unwrap().0);
}

#[test]
fn signature_verifies_under_its_key_only() {
    let jws = parse_compact_jws(&signed_jws(r#"{"alg":"HS256"}"#, "{}")).ok().unwrap();
    assert!(jwks_signature_verifies(&vec![jwk(SECRET, None)], &jws));
    assert!(jwks_signature_verifies(&vec![jwk(b"other", None), jwk(SECRET, None)], &jws));
    assert!(!jwks_signature_verifies(&vec![jwk(b"other", None)], &jws));
    assert!(!jwks_signature_verifies(&vec![], &jws));
    assert!(!jwks_signature_verifies(&vec!["no key".to_string()], &jws));
}

#[test]
fn named_key_is_the_one_that_counts() {
    let token = signed_jws(r#"{"alg":"HS256","kid":"k1"}"#, "{}");
    let jws = parse_compact_jws(&token).ok().unwrap();
    assert!(jwks_signature_verifies(&vec![jwk(SECRET, Some("k1"))], &jws));
    assert!(!jwks_signature_verifies(&vec![jwk(SECRET, Some("k2"))], &jws));
    assert!(!jwks_signature_verifies(&vec![jwk(SECRET, None)], &jws));
}

#[test]
fn short_signature_verifies_nothing() {
    let jws = parse_compact_jws(&make_jws(br#"{"alg":"HS256"}"#, b"{}", b"\x00")).ok().unwrap();
    assert!(!jwks_signature_verifies(&vec![jwk(SECRET, None)], &jws));
}

#[test]
fn claims_are_read_by_their_kind() {
    let c = json(r#"{"s":"x","n":-7,"u":18446744073709551615,"b":true,"z":null,"o":{"k":1}}"#);
    assert_eq!(c.text("s").as_deref(), Some("x"));
    assert_eq!(c.as_i64("n"), Some(-7));
    assert_eq!(c.as_u64("n"), None);
    assert_eq!(c.as_u64("u"), Some(u64::MAX));
    assert_eq!(c.as_i64("u"), None);
    assert!(matches!(c.get("b"), Some(Claim::Bool(true))));
    assert!(matches!(c.get("z"), Some(Claim::Null)));
    assert!(matches!(c.get("o"), Some(Claim::Object(k)) if k == &vec!["k".to_string()]));
    assert!(c.get("missing").is_none());
    assert!(Claims::parse(b"[").is_none());
}

#[test]
fn empty_text_claims_count_as_missing() {
    let c = json(r#"{"e":"","n":3,"s":"x"}"#);
    assert_eq!(extract_optional_string_claim("s", &c).as_deref(), Some("x"));
    assert_eq!(extract_optional_string_claim("e", &c), None);
    assert_eq!(extract_string_claim("e", &c, "d"), "d");
    assert_eq!(extract_string_claim("n", &c, "d"), "d");
    assert_eq!(extract_string_claim("s", &c, "d"), "x");
}
