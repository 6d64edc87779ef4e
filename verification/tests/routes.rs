use base64::engine::general_purpose::URL_SAFE_NO_PAD;
use base64::Engine;
use hyper::header::{HeaderMap, ACCEPT, AUTHORIZATION, CONTENT_TYPE, COOKIE};
use hypershunt::metrics::Metrics;
use hypershunt::oidc::cache::Identity;
use hypershunt::oidc::login::LoginError;
use hypershunt::oidc::routes::cookies::{
    clear_jwt_cookie, clear_refresh_cookie, clear_state_cookie, cookie_value, extract_bearer,
    refresh_cookie_value, state_cookie_value, wants_html,
};
use hypershunt::oidc::routes::percent::{percent_decode, percent_encode_return, query_param};
use hypershunt::oidc::routes::{
    build_idp_hints, build_login_redirect, build_logout_redirect, check_callback,
    handle_oidc_backchannel_logout, handle_oidc_callback, handle_oidc_login, handle_oidc_logout,
    validate_hint, validate_return_to, UserCookie, MAX_HINT_LEN,
};
use hypershunt::oidc::{OidcClient, OidcConfig, OidcProvider, RefreshEntry};
use hypershunt::reply::{response_503_retry, Reply, ReplyBody};
use openidconnect::PrivateSigningKey;

const NOW: u64 = 9_000_000_000_000;
const SEC: u64 = 1_000_000_000;
const UNIX: u64 = 1_700_000_000;

fn provider_for_store(refresh_ttl_secs: u64) -> OidcProvider {
    let mut p = OidcProvider::new(OidcConfig {
        issuer: "https://idp.example".into(),
        client_id: "id".into(),
        client_secret: None,
        redirect_uri: "https://app.example/cb".into(),
        scopes: vec!["openid".into()],
        username_claim: "sub".into(),
        groups_claim: "groups".into(),
        login_path: "/oidc/login".into(),
        callback_path: "/oidc/callback".into(),
        state_ttl_secs: 60,
        refresh: true,
        refresh_ttl_secs,
        refresh_cookie_name: "__hypershunt_oidc_refresh".into(),
        logout_path: "/oidc/logout".into(),
        post_logout_uri: "/".into(),
        idp_logout: true,
        userinfo: false,
        discovery_refresh_secs: 0,
        discovery_retry: true,
        backchannel_logout_enabled: true,
        backchannel_logout_path: "/oidc/backchannel-logout".into(),
        backchannel_max_iat_skew_secs: 120,
        backchannel_jti_ttl_secs: 300,
        bearer: false,
        bearer_audiences: vec![],
        bearer_cache_size: 16,
        revoke_on_logout: true,
        require_iss: false,
        resources: vec![],
    });
    p.client = Some(OidcClient {
        issuer: "https://idp.example".into(),
        authorization_url: "https://idp.example/authorize".into(),
    });
    p
}

fn provider_for_store_with_end_session(ttl: u64, end_session: &str) -> OidcProvider {
    let mut p = provider_for_store(ttl);
    p.end_session_url = Some(end_session.into());
    p
}

fn location(resp: &Reply) -> &str {
    resp.header("Location").unwrap_or("")
}

fn set_cookies(resp: &Reply) -> Vec<String> {
    resp.headers.iter().filter(|(n, _)| n == "Set-Cookie").map(|(_, v)| v.clone()).collect()
}

fn with_cookie(value: &str) -> HeaderMap {
    let mut h = HeaderMap::new();
    h.insert(COOKIE, value.parse().unwrap());
    h
}

#[test]
fn wants_html_true_when_accept_contains_html_and_no_auth() {
    let mut h = HeaderMap::new();
    h.insert(ACCEPT, "text/html,*/*".parse().unwrap());
    assert!(wants_html(&h));
}

#[test]
fn wants_html_false_when_authorization_present() {
    let mut h = HeaderMap::new();
    h.insert(ACCEPT, "text/html".parse().unwrap());
    h.insert(AUTHORIZATION, "Bearer x".parse().unwrap());
    assert!(!wants_html(&h));
}

#[test]
fn wants_html_false_for_json_client() {
    let mut h = HeaderMap::new();
    h.insert(ACCEPT, "application/json".parse().unwrap());
    assert!(!wants_html(&h));
}

#[test]
fn validate_return_to_rejects_off_origin() {
    assert_eq!(validate_return_to("https://evil"), "/");
    assert_eq!(validate_return_to("//evil.example"), "/");
    assert_eq!(validate_return_to("/\\evil"), "/");
    assert_eq!(validate_return_to("/safe/path"), "/safe/path");
}

#[test]
fn build_login_redirect_embeds_return() {
    let r = build_login_redirect("/oidc/login", "/secret?x=1");
    assert!(r.starts_with("/oidc/login?return=/secret"));
    assert!(r.contains("%3Fx%3D1"));
}

#[test]
fn build_logout_redirect_falls_back_to_post_logout_uri() {
    let p = provider_for_store(60);
    let r = build_logout_redirect(&p, Some("any-id-token"));
    assert_eq!(r, "/");
}

#[test]
fn build_logout_redirect_emits_idp_query_when_end_session_set() {
    let p = provider_for_store_with_end_session(60, "https://idp.example/logout");
    let r = build_logout_redirect(&p, Some("the.id.token"));
    assert!(r.starts_with("https://idp.example/logout?"), "got {r}");
    assert!(r.contains("id_token_hint=the.id.token"), "got {r}");
    assert!(r.contains("post_logout_redirect_uri=/"), "got {r}");
    assert!(r.contains("client_id="), "got {r}");
}

#[test]
fn build_idp_hints_accepts_allowlisted_params() {
    let h = build_idp_hints("login_hint=alice@example.com&prompt=none").ok().unwrap();
    assert_eq!(h.login_hint.as_deref(), Some("alice@example.com"));
    assert_eq!(h.prompt.as_deref(), Some("none"));
    assert!(h.max_age.is_none());
}

#[test]
fn build_idp_hints_rejects_overlong_value() {
    let big = "a".repeat(257);
    let q = format!("login_hint={big}");
    assert!(build_idp_hints(&q).is_err());
}

#[test]
fn build_idp_hints_rejects_control_characters() {
    // Percent-decode of %01 gives a control byte.
    let q = "login_hint=%01";
    assert!(build_idp_hints(q).is_err());
}

#[test]
fn build_idp_hints_ignores_unknown_params() {
    let h = build_idp_hints("foo=bar&login_hint=x").ok().unwrap();
    assert_eq!(h.login_hint.as_deref(), Some("x"));
}

#[test]
fn extract_bearer_accepts_case_insensitive_scheme() {
    for raw in ["Bearer abc", "bearer abc", "BEARER abc"] {
        let mut h = HeaderMap::new();
        h.insert(AUTHORIZATION, raw.parse().unwrap());
        assert_eq!(extract_bearer(&h).as_deref(), Some("abc"));
    }
}

#[test]
fn extract_bearer_rejects_non_bearer_scheme() {
    let mut h = HeaderMap::new();
    h.insert(AUTHORIZATION, "Basic xyz".parse().unwrap());
    assert!(extract_bearer(&h).is_none());
}

#[test]
fn extract_bearer_rejects_empty_token() {
    let mut h = HeaderMap::new();
    h.insert(AUTHORIZATION, "Bearer  ".parse().unwrap());
    assert!(extract_bearer(&h).is_none());
}

#[test]
fn extract_bearer_missing_header_returns_none() {
    let h = HeaderMap::new();
    assert!(extract_bearer(&h).is_none());
}

#[test]
fn percent_encode_decode_roundtrip() {
    let raw = "/a b/c?x=1&y=2";
    let enc = percent_encode_return(raw);
    assert!(!enc.contains(' '));
    assert_eq!(percent_decode(&enc), raw);
}

#[test]
fn response_503_retry_carries_retry_after_header() {
    let r = response_503_retry(5);
    assert_eq!(r.status, 503);
    assert_eq!(r.header("Retry-After"), Some("5"));
}

#[test]
fn cookie_value_picks_named_entry() {
    let h = with_cookie("a=1; sid=abc; b=2");
    assert_eq!(cookie_value(&h, "sid").as_deref(), Some("abc"));
    assert!(cookie_value(&h, "missing").is_none());
}

#[test]
fn query_param_first_param() {
    assert_eq!(query_param("a=1&b=2", "a").as_deref(), Some("1"));
}

#[test]
fn query_param_middle_param() {
    assert_eq!(query_param("a=1&b=2&c=3", "b").as_deref(), Some("2"));
}

#[test]
fn query_param_last_param() {
    assert_eq!(query_param("a=1&b=2", "b").as_deref(), Some("2"));
}

#[test]
fn query_param_not_found() {
    assert!(query_param("a=1&b=2", "c").is_none());
}

#[test]
fn query_param_empty_query() {
    assert!(query_param("", "a").is_none());
}

#[test]
fn query_param_percent_decoded() {
    // percent_decode turns %20 into a space; verify the value is decoded
    assert_eq!(query_param("msg=hello%20world", "msg").as_deref(), Some("hello world"));
}

#[test]
fn validate_hint_empty_is_err() {
    assert!(validate_hint("").is_err());
}

#[test]
fn validate_hint_too_long_is_err() {
    assert!(validate_hint(&"a".repeat(MAX_HINT_LEN + 1)).is_err());
}

#[test]
fn validate_hint_max_len_is_ok() {
    assert!(validate_hint(&"a".repeat(MAX_HINT_LEN)).is_ok());
}

#[test]
fn validate_hint_non_ascii_printable_is_err() {
    // Non-ASCII Unicode (U+00E9) is outside the ASCII
    // printable range accepted by validate_hint.
    assert!(validate_hint("hello\u{e9}world").is_err());
}

#[test]
fn validate_hint_control_char_is_err() {
    // 0x01 is below 0x20
    assert!(validate_hint("hello\x01world").is_err());
}

#[test]
fn validate_hint_valid_printable_ascii_is_ok() {
    assert!(validate_hint("alice@example.com").is_ok());
    assert!(validate_hint("prompt=none").is_ok());
}

#[test]
fn state_cookie_value_without_tls() {
    let v = state_cookie_value("id123", 60, false);
    assert!(v.contains("__hypershunt_oidc_state=id123"));
    assert!(v.contains("Max-Age=60"));
    assert!(!v.contains("Secure"));
}

#[test]
fn state_cookie_value_with_tls() {
    let v = state_cookie_value("id123", 60, true);
    assert!(v.contains("Secure"));
}

#[test]
fn clear_state_cookie_without_tls() {
    let v = clear_state_cookie(false);
    assert!(v.contains("__hypershunt_oidc_state="));
    assert!(v.contains("Max-Age=0"));
    assert!(!v.contains("Secure"));
}

#[test]
fn clear_state_cookie_with_tls() {
    assert!(clear_state_cookie(true).contains("Secure"));
}

#[test]
fn refresh_cookie_value_without_tls() {
    let v = refresh_cookie_value("my_cookie", "sess1", 3600, false);
    assert!(v.contains("my_cookie=sess1"));
    assert!(v.contains("Max-Age=3600"));
    assert!(v.contains("SameSite=Strict"));
    assert!(!v.contains("Secure"));
}

#[test]
fn refresh_cookie_value_with_tls() {
    let v = refresh_cookie_value("c", "s", 60, true);
    assert!(v.contains("Secure"));
}

#[test]
fn clear_refresh_cookie_without_tls() {
    let v = clear_refresh_cookie("my_cookie", false);
    assert!(v.contains("my_cookie="));
    assert!(v.contains("Max-Age=0"));
    assert!(!v.contains("Secure"));
}

#[test]
fn clear_refresh_cookie_with_tls() {
    assert!(clear_refresh_cookie("c", true).contains("Secure"));
}

#[test]
fn clear_jwt_cookie_without_tls() {
    let v = clear_jwt_cookie("jwt_sess", false);
    assert!(v.contains("jwt_sess="));
    assert!(v.contains("Max-Age=0"));
    assert!(!v.contains("Secure"));
}

#[test]
fn clear_jwt_cookie_with_tls() {
    assert!(clear_jwt_cookie("j", true).contains("Secure"));
}

#[test]
fn handle_oidc_login_redirects_to_idp_with_state_cookie() {
    let mut p = provider_for_store(60);
    let resp = handle_oidc_login(&mut p, "return=/dashboard", true, NOW);
    assert_eq!(resp.status, 302);
    // Redirect points at the IdP authorize endpoint.
    assert!(location(&resp).starts_with("https://idp.example/authorize"));
    // State cookie is set and carries the Secure flag under TLS.
    let cookies = set_cookies(&resp);
    assert!(
        cookies.iter().any(|c| c.contains("Secure")),
        "expected a Secure state cookie under TLS"
    );
}

#[test]
fn handle_oidc_login_rejects_malformed_hint() {
    let mut p = provider_for_store(60);
    // An over-long login_hint fails coarse validation -> 400.
    let long = "a".repeat(600);
    let resp = handle_oidc_login(&mut p, &format!("login_hint={long}"), false, NOW);
    assert_eq!(resp.status, 400);
}

#[test]
fn handle_oidc_logout_clears_cookies_without_session() {
    let mut p = provider_for_store(60);
    let (resp, token) = handle_oidc_logout(&mut p, None, &HeaderMap::new(), false);
    assert_eq!(resp.status, 302);
    // No end_session_endpoint configured -> local post-logout uri.
    assert_eq!(location(&resp), "/");
    // Refresh + stale-state cookies are cleared.
    let cookies = set_cookies(&resp);
    assert!(cookies.iter().any(|c| c.contains("Max-Age=0")));
    assert_eq!(token, None);
}

#[test]
fn handle_oidc_logout_pops_session_and_bounces_through_idp() {
    let mut p = provider_for_store_with_end_session(60, "https://idp.example/end-session");
    // Seed a server-side refresh session the logout must tear down.
    p.refreshes.insert(
        "sid".into(),
        RefreshEntry {
            refresh_token: "rt".into(),
            expires_at: (NOW + 60 * SEC) as u128,
            id_token: "the-id-token".into(),
            subject: "alice".into(),
            idp_sid: None,
        },
    );
    let headers = with_cookie("__hypershunt_oidc_refresh=sid");

    let (resp, token) = handle_oidc_logout(&mut p, None, &headers, true);
    assert_eq!(resp.status, 302);
    // Bounced through the IdP end-session endpoint, carrying the
    // stored id_token as id_token_hint.
    let loc = location(&resp);
    assert!(loc.starts_with("https://idp.example/end-session"));
    assert!(loc.contains("id_token_hint=the-id-token"));
    // Session was popped (pop semantics: gone after logout).
    assert_eq!(p.refresh_count(), 0);
    // No address to revoke the token at.
    assert_eq!(token, None);
}

#[test]
fn logout_hands_out_the_token_to_revoke() {
    let mut p = provider_for_store(60);
    p.revocation_url = Some("https://idp.example/revoke".into());
    p.refreshes.insert(
        "sid".into(),
        RefreshEntry {
            refresh_token: "rt".into(),
            expires_at: 0,
            id_token: "t".into(),
            subject: "alice".into(),
            idp_sid: None,
        },
    );
    let headers = with_cookie("__hypershunt_oidc_refresh=sid");
    let (resp, token) = handle_oidc_logout(&mut p, Some("jwt"), &headers, false);
    assert_eq!(token.as_deref(), Some("rt"));
    let cookies = set_cookies(&resp);
    assert!(cookies.iter().any(|c| c.starts_with("jwt=;")), "{cookies:?}");
}

#[test]
fn login_before_discovery_asks_to_come_back() {
    let mut p = provider_for_store(60);
    p.client = None;
    let resp = handle_oidc_login(&mut p, "", false, NOW);
    assert_eq!(resp.status, 503);
    assert_eq!(resp.header("Retry-After"), Some("5"));
}

#[test]
fn cookie_texts_are_exact() {
    assert_eq!(
        state_cookie_value("s", 600, true),
        "__hypershunt_oidc_state=s; Path=/; HttpOnly; SameSite=Lax; Max-Age=600; Secure"
    );
    assert_eq!(
        refresh_cookie_value("c", "v", 60, false),
        "c=v; Path=/; HttpOnly; SameSite=Strict; Max-Age=60"
    );
}

#[test]
fn percent_encoding_is_exact() {
    assert_eq!(percent_encode_return("/a-b_c.d~e/f"), "/a-b_c.d~e/f");
    assert_eq!(percent_encode_return("a b"), "a%20b");
    assert_eq!(percent_encode_return("\u{e9}"), "%C3%A9");
    assert_eq!(percent_decode("%C3%A9"), "\u{e9}");
    assert_eq!(percent_decode("%zz%4"), "%zz%4");
    assert_eq!(percent_decode("%FF"), "\u{fffd}");
}

#[test]
fn hints_may_not_carry_percent_signs() {
    assert!(validate_hint("a%20b").is_err());
}

#[test]
fn callback_needs_its_state_cookie() {
    let p = provider_for_store(60);
    let mut m = Metrics::new();
    let good = with_cookie("__hypershunt_oidc_state=s1");
    let (code, state) = check_callback(&p, &good, "code=c&state=s1", &mut m).ok().unwrap();
    assert_eq!((code.as_str(), state.as_str()), ("c", "s1"));
    for (headers, query) in [
        (HeaderMap::new(), "code=c&state=s1"),
        (with_cookie("__hypershunt_oidc_state=s2"), "code=c&state=s1"),
        (with_cookie("__hypershunt_oidc_state=s1"), "state=s1"),
        (with_cookie("__hypershunt_oidc_state=s1"), "code=c"),
    ] {
        assert_eq!(check_callback(&p, &headers, query, &mut m).err().unwrap().status, 400);
    }
    assert_eq!(m.oidc_callback_iss_mismatches, 0);
}

#[test]
fn callback_from_another_issuer_is_refused() {
    let mut p = provider_for_store(60);
    let mut m = Metrics::new();
    let h = with_cookie("__hypershunt_oidc_state=s");
    let q = "code=c&state=s&iss=https://idp.example/";
    assert!(check_callback(&p, &h, q, &mut m).is_ok());
    let q = "code=c&state=s&iss=https://evil.example";
    assert!(check_callback(&p, &h, q, &mut m).is_err());
    assert_eq!(m.oidc_callback_iss_mismatches, 1);
    p.cfg.require_iss = true;
    assert!(check_callback(&p, &h, "code=c&state=s", &mut m).is_err());
    assert_eq!(m.oidc_callback_iss_mismatches, 2);
}

#[test]
fn finished_login_sets_its_cookies() {
    let p = provider_for_store(60);
    let done = || {
        Ok((
            Identity { username: "a".into(), groups: vec![] },
            "/after".to_string(),
            Some("sid".to_string()),
        ))
    };
    let r = handle_oidc_callback(&p, done(), UserCookie::Issued("jwt=x".into()), true);
    assert_eq!(r.status, 302);
    assert_eq!(location(&r), "/after");
    let cookies = set_cookies(&r);
    assert_eq!(cookies.len(), 3);
    assert_eq!(cookies[0], "jwt=x");
    assert!(cookies[1].starts_with("__hypershunt_oidc_state=;"));
    assert!(cookies[2].starts_with("__hypershunt_oidc_refresh=sid;"));
    let r = handle_oidc_callback(&p, done(), UserCookie::Failed, true);
    assert_eq!(r.status, 500);
    let r = handle_oidc_callback(&p, done(), UserCookie::NotIssued, true);
    assert_eq!(r.status, 500);
    let r = handle_oidc_callback(&p, Err(LoginError::NoIdToken), UserCookie::NotIssued, true);
    assert_eq!(r.status, 400);
}

#[test]
fn backchannel_logout_is_answered() {
    let mut p = provider_for_store(60);
    let secret = b"a secret that nobody else knows!";
    p.jwks = Some(vec![format!(r#"{{"kty":"oct","k":"{}"}}"#, URL_SAFE_NO_PAD.encode(secret))]);
    let event = r#""events":{"http://schemas.openid.net/event/backchannel-logout":{}}"#;
    let payload = format!(
        r#"{{"iss":"https://idp.example","aud":"id","iat":{UNIX},{event},"jti":"j","sub":"u"}}"#
    );
    let input = format!(
        "{}.{}",
        URL_SAFE_NO_PAD.encode(r#"{"alg":"HS256"}"#),
        URL_SAFE_NO_PAD.encode(payload)
    );
    let sig = openidconnect::core::CoreHmacKey::new(secret.as_slice())
        .sign(&openidconnect::core::CoreJwsSigningAlgorithm::HmacSha256, input.as_bytes())
        .unwrap();
    let body = format!("logout_token={input}.{}", URL_SAFE_NO_PAD.encode(sig));
    let mut form = HeaderMap::new();
    form.insert(CONTENT_TYPE, "application/x-www-form-urlencoded".parse().unwrap());
    let mut m = Metrics::new();
    let mut push = |h: &HeaderMap, b: Option<&[u8]>| {
        handle_oidc_backchannel_logout(&mut p, h, b, NOW, UNIX, &mut m)
    };
    // No form, no body, no token.
    assert_eq!(push(&HeaderMap::new(), Some(body.as_bytes())).status, 400);
    assert_eq!(push(&form, None).status, 400);
    assert_eq!(push(&form, Some(b"x=y")).status, 400);
    let r = push(&form, Some(body.as_bytes()));
    assert_eq!(r.status, 200);
    assert_eq!(r.header("Cache-Control"), Some("no-store"));
    assert!(matches!(r.body, ReplyBody::Empty));
    // The same token again.
    assert_eq!(push(&form, Some(body.as_bytes())).status, 400);
    assert_eq!((m.oidc_backchannel_logouts, m.oidc_backchannel_failures), (1, 4));
}

#[test]
fn query_param_reads_text_back() {
    let q = format!("x=1&return={}", percent_encode_return("/a b?c=d&e=ä"));
    assert_eq!(query_param(&q, "return").as_deref(), Some("/a b?c=d&e=ä"));
    assert_eq!(query_param("x=%C3%A4%E2%82%AC", "x").as_deref(), Some("ä€"));
}
