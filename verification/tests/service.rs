use hyper::header::{HeaderMap, HeaderValue, ACCEPT, AUTHORIZATION, CONTENT_LENGTH, COOKIE};
use hypershunt::ip::{IpAddr, SocketAddr};
use hypershunt::listener::dispatch::RouteFacts;
use hypershunt::listener::http::Timeouts;
use hypershunt::listener::service::admission::{content_length, exceeds, finish, let_in};
use hypershunt::listener::service::answer::{
    alt_svc_to_add, answer_cookies, finish_routed, fresh_token_due, http_version_str, log_user,
    record_compression, record_issued, record_logout, timeout_reply, CompressionStats, Encoding,
    HttpVersion,
};
use hypershunt::listener::service::identity::{
    resolve_bearer, resolve_local, session_to_refresh, settle_refresh, JwtOutcome,
};
use hypershunt::listener::service::intercept::{acme_reply, jwks_reply, Intercept};
use hypershunt::listener::service::limits::{clear, Stopped};
use hypershunt::listener::service::policy::{
    no_policy, pre_resolved, presented_credentials, principal_for_headers, record_geoip,
    settle_policy, PolicyOutcome, Principal, PrincipalStep, SecurityEvent, Verdict,
};
use hypershunt::listener::service::{ClientCert, HypershuntService};
use hypershunt::listener::socket::PeerAddr;
use hypershunt::metrics::counters::HandlerKind;
use hypershunt::metrics::Metrics;
use hypershunt::oidc::cache::Identity;
use hypershunt::oidc::routes::UserCookie;
use hypershunt::oidc::session::RefreshError;
use hypershunt::oidc::{OidcClient, OidcConfig, OidcProvider};
use hypershunt::rate_limit::{Limit, RateLimitKey, RateLimitRule, RequestContext};
use hypershunt::reply::{Reply, ReplyBody};
use hypershunt::strmap::StrMap;

fn provider() -> OidcProvider {
    let mut p = OidcProvider::new(OidcConfig {
        issuer: "https://idp.example".into(),
        client_id: "id".into(),
        client_secret: None,
        redirect_uri: "https://app.example/cb".into(),
        scopes: vec!["openid".into()],
        username_claim: "sub".into(),
        groups_claim: "groups".into(),
        login_path: "/oidc/login".into(),
        callback_path: "/oidc/callback".into(),
        state_ttl_secs: 60,
        refresh: true,
        refresh_ttl_secs: 60,
        refresh_cookie_name: "__hypershunt_oidc_refresh".into(),
        logout_path: "/oidc/logout".into(),
        post_logout_uri: "/".into(),
        idp_logout: true,
        userinfo: false,
        discovery_refresh_secs: 0,
        discovery_retry: true,
        backchannel_logout_enabled: true,
        backchannel_logout_path: "/oidc/backchannel-logout".into(),
        backchannel_max_iat_skew_secs: 120,
        backchannel_jti_ttl_secs: 300,
        bearer: true,
        bearer_audiences: vec![],
        bearer_cache_size: 16,
        revoke_on_logout: true,
        require_iss: false,
        resources: vec![],
    });
    p.client = Some(OidcClient {
        issuer: "https://idp.example".into(),
        authorization_url: "https://idp.example/authorize".into(),
    });
    p
}

fn alice() -> Identity {
    Identity { username: "alice".into(), groups: vec!["devs".into()] }
}

fn with(name: hyper::header::HeaderName, value: &'static str) -> HeaderMap {
    let mut h = HeaderMap::new();
    h.insert(name, HeaderValue::from_static(value));
    h
}

fn ctx() -> RequestContext<'static> {
    RequestContext {
        client_ip: "1.2.3.4",
        username: "",
        groups: "",
        method: "GET",
        path: "/",
        query: "",
        path_and_query: "/",
        host: "h",
        scheme: "http",
        client_cert_subject: "",
        client_cert_sans: "",
    }
}

fn rule(name: &str, burst: u32) -> RateLimitRule {
    let limit = Limit { rate: 1, per_secs: 1, burst, burst_nanos: 0 };
    RateLimitRule::new(name.into(), limit, RateLimitKey::ClientIp)
}

#[test]
fn authorization_header_counts_as_credentials() {
    let h = with(AUTHORIZATION, "Basic eg==");
    assert!(presented_credentials(&h, Some("sess")));
    assert!(presented_credentials(&h, None));
}

#[test]
fn session_cookie_counts_as_credentials() {
    let h = with(COOKIE, "a=1; sess=xyz; b=2");
    assert!(presented_credentials(&h, Some("sess")));
    // A different / absent cookie name is not a match.
    assert!(!presented_credentials(&h, Some("other")));
}

#[test]
fn no_credential_material_is_challenge() {
    let h = with(COOKIE, "a=1; b=2");
    assert!(!presented_credentials(&h, Some("sess")));
    assert!(!presented_credentials(&HeaderMap::new(), Some("sess")));
    assert!(!presented_credentials(&HeaderMap::new(), None));
}

#[test]
fn cookie_name_is_not_prefix_matched() {
    // A cookie "session_x" must not satisfy session name "sess".
    let h = with(COOKIE, "session_x=1");
    assert!(!presented_credentials(&h, Some("sess")));
}

#[test]
fn second_cookie_header_counts_too() {
    let mut h = with(COOKIE, "a=1");
    h.append(COOKIE, HeaderValue::from_static("sess=2"));
    assert!(presented_credentials(&h, Some("sess")));
}

#[test]
fn oversized_content_length_returns_413() {
    let mut m = Metrics::new();
    let h = with(CONTENT_LENGTH, "100");
    let refused = let_in(&h, Some(99), &mut m).err().unwrap();
    assert_eq!(refused.status, 413);
    assert_eq!(m.requests_active, 0);
    assert!(exceeds(&h, Some(99)));
}

#[test]
fn undersized_content_length_passes_through() {
    let mut m = Metrics::new();
    let h = with(CONTENT_LENGTH, "100");
    let req = let_in(&h, Some(100), &mut m).ok().unwrap();
    assert_eq!(m.requests_active, 1);
    finish(req, 200, 5, "/x", &mut m);
    assert_eq!(m.requests_active, 0);
    assert_eq!(m.requests_total, 1);
    assert!(!exceeds(&h, None));
}

#[test]
fn content_length_is_read_as_a_number() {
    assert_eq!(content_length(&with(CONTENT_LENGTH, "42")), Some(42));
    assert_eq!(content_length(&with(CONTENT_LENGTH, "-1")), None);
    assert_eq!(content_length(&with(CONTENT_LENGTH, "x")), None);
    assert_eq!(content_length(&HeaderMap::new()), None);
}

#[test]
fn acme_challenge_not_blocked_by_redirect() {
    let mut m = Metrics::new();
    let req = let_in(&HeaderMap::new(), None, &mut m).ok().unwrap();
    let mut known = StrMap::new();
    known.insert("tok".to_string(), "tok.key".to_string());
    let path = "/.well-known/acme-challenge/tok";
    match req.intercept(path, "GET", &known, None, true, Some(&provider())) {
        Intercept::Acme(body) => {
            let r = acme_reply(body);
            assert_eq!(r.status, 200);
            assert!(matches!(r.body, ReplyBody::Text(t) if t == "tok.key"));
        }
        _ => panic!("expected the challenge's answer"),
    }
}

#[test]
fn acme_path_unknown_token_falls_through_to_router() {
    let mut m = Metrics::new();
    let req = let_in(&HeaderMap::new(), None, &mut m).ok().unwrap();
    let path = "/.well-known/acme-challenge/missing";
    let got = req.intercept(path, "GET", &StrMap::new(), None, true, None);
    assert!(matches!(got, Intercept::Open));
}

#[test]
fn own_endpoints_are_intercepted() {
    let mut m = Metrics::new();
    let req = let_in(&HeaderMap::new(), None, &mut m).ok().unwrap();
    let none = StrMap::new();
    let p = provider();
    let at = |path: &str, method: &str| req.intercept(path, method, &none, None, true, Some(&p));
    assert!(matches!(at("/.well-known/jwks.json", "GET"), Intercept::Jwks));
    assert!(matches!(at("/oidc/login", "GET"), Intercept::Login));
    assert!(matches!(at("/oidc/callback", "GET"), Intercept::Callback));
    assert!(matches!(at("/oidc/logout", "GET"), Intercept::Logout));
    assert!(matches!(at("/oidc/backchannel-logout", "POST"), Intercept::Backchannel));
    assert!(matches!(at("/oidc/backchannel-logout", "GET"), Intercept::WrongMethod));
    assert!(matches!(at("/", "GET"), Intercept::Open));
    let health = Some(Reply::new(200, ReplyBody::Empty));
    let got = req.intercept("/oidc/login", "GET", &none, health, true, Some(&p));
    assert!(matches!(got, Intercept::Health(r) if r.status == 200));
}

#[test]
fn sign_on_waits_until_ready() {
    let mut m = Metrics::new();
    let req = let_in(&HeaderMap::new(), None, &mut m).ok().unwrap();
    let mut p = provider();
    p.client = None;
    let none = StrMap::new();
    let got = req.intercept("/oidc/login", "GET", &none, None, true, Some(&p));
    assert!(matches!(got, Intercept::NotReady));
    assert_eq!(m.requests_active, 1);
    let r = req.refuse_not_ready(&mut m);
    assert_eq!((m.requests_active, m.requests_total), (0, 0));
    assert_eq!(r.status, 503);
    assert_eq!(r.header("Retry-After"), Some("5"));
}

#[test]
fn session_token_comes_before_the_certificate() {
    let mut m = Metrics::new();
    let id = resolve_local(JwtOutcome::Valid(alice()), Some("cert"), &mut m).unwrap();
    assert_eq!(id.username, "alice");
    let id = resolve_local(JwtOutcome::Expired, Some("cert"), &mut m).unwrap();
    assert_eq!(id.username, "cert");
    assert!(id.groups.is_empty());
    assert!(resolve_local(JwtOutcome::Invalid, None, &mut m).is_none());
    assert!(resolve_local(JwtOutcome::Absent, None, &mut m).is_none());
    assert_eq!((m.jwt_expiries, m.jwt_failures), (1, 1));
}

#[test]
fn bearer_token_is_looked_at_last() {
    let mut m = Metrics::new();
    let mut p = provider();
    let h = with(AUTHORIZATION, "Bearer nonsense");
    let id = resolve_bearer(Some(alice()), &mut p, &h, 0, &mut m);
    assert_eq!(id.unwrap().username, "alice");
    assert_eq!(m.oidc_bearer_failures, 0);
    assert!(resolve_bearer(None, &mut p, &h, 0, &mut m).is_none());
    assert_eq!(m.oidc_bearer_failures, 1);
    assert!(resolve_bearer(None, &mut p, &HeaderMap::new(), 0, &mut m).is_none());
    assert_eq!(m.oidc_bearer_failures, 1);
}

#[test]
fn only_unknown_users_have_their_session_refreshed() {
    let p = provider();
    let h = with(COOKIE, "__hypershunt_oidc_refresh=sid");
    assert_eq!(session_to_refresh(&None, &p, true, &h).as_deref(), Some("sid"));
    assert_eq!(session_to_refresh(&Some(alice()), &p, true, &h), None);
    assert_eq!(session_to_refresh(&None, &p, false, &h), None);
    assert_eq!(session_to_refresh(&None, &p, true, &HeaderMap::new()), None);
}

#[test]
fn refresh_sets_its_cookies() {
    let p = provider();
    let mut m = Metrics::new();
    let renamed = Ok((alice(), "new".to_string()));
    let cookie = UserCookie::Issued("jwt=x".into());
    let (id, cookies) = settle_refresh(&p, "old", renamed, cookie, false, &mut m);
    assert_eq!(id.unwrap().username, "alice");
    assert_eq!(cookies.len(), 2);
    assert_eq!(cookies[0], "jwt=x");
    assert!(cookies[1].starts_with("__hypershunt_oidc_refresh=new;"));
    let same = Ok((alice(), "old".to_string()));
    let (_, cookies) = settle_refresh(&p, "old", same, UserCookie::Failed, false, &mut m);
    assert!(cookies.is_empty());
    let failed = Err(RefreshError::Expired);
    let (id, cookies) = settle_refresh(&p, "old", failed, UserCookie::NotIssued, false, &mut m);
    assert!(id.is_none());
    assert!(cookies[0].starts_with("__hypershunt_oidc_refresh=;"));
    assert_eq!((m.oidc_refreshes, m.oidc_refresh_failures), (2, 1));
}

#[test]
fn known_users_need_no_lookup() {
    assert!(matches!(pre_resolved(&Some(alice())), Some(Principal::Authenticated(_))));
    assert!(pre_resolved(&None).is_none());
    let step = principal_for_headers(true, Principal::Anonymous, &Some(alice()));
    assert!(matches!(step, PrincipalStep::Known(Principal::Authenticated(_))));
    let step = principal_for_headers(true, Principal::Anonymous, &None);
    assert!(matches!(step, PrincipalStep::AskBackend));
    let step = principal_for_headers(false, Principal::Anonymous, &Some(alice()));
    assert!(matches!(step, PrincipalStep::Known(Principal::Anonymous)));
}

#[test]
fn browsers_are_sent_to_log_in() {
    let mut m = Metrics::new();
    let p = provider();
    let h = with(ACCEPT, "text/html");
    let (verdict, event) = settle_policy(
        PolicyOutcome::Deny(401),
        &h,
        Some("sess"),
        Some(&p),
        "/secret?x=1",
        None,
        &mut m,
    );
    match verdict {
        Err(Verdict::SendToLogin(to)) => {
            assert_eq!(to, "/oidc/login?return=/secret%3Fx%3D1");
        }
        _ => panic!("expected a redirect to the login page"),
    }
    assert_eq!(event, Some(SecurityEvent::AuthChallenge));
    assert_eq!(m.auth_failures, 0);
}

#[test]
fn api_clients_are_asked_for_credentials() {
    let mut m = Metrics::new();
    let p = provider();
    let h = with(AUTHORIZATION, "Basic eg==");
    let (verdict, event) = settle_policy(
        PolicyOutcome::Deny(401),
        &h,
        None,
        Some(&p),
        "/",
        Some("Realm"),
        &mut m,
    );
    assert!(matches!(verdict, Err(Verdict::AskCredentials(r)) if r == "Realm"));
    assert_eq!(event, Some(SecurityEvent::AuthFailure));
    assert_eq!(m.auth_failures, 1);
}

#[test]
fn policy_redirect_returns_302_with_location() {
    let mut m = Metrics::new();
    let none = HeaderMap::new();
    let outcome = PolicyOutcome::Redirect("/there".into(), 302);
    let (verdict, event) = settle_policy(outcome, &none, None, None, "/", None, &mut m);
    assert!(matches!(verdict, Err(Verdict::Redirect(to, 302)) if to == "/there"));
    assert_eq!(event, None);
}

#[test]
fn ip_access_deny_returns_403() {
    let mut m = Metrics::new();
    let none = HeaderMap::new();
    let (verdict, event) =
        settle_policy(PolicyOutcome::Deny(403), &none, None, None, "/", None, &mut m);
    assert!(matches!(verdict, Err(Verdict::Deny(403))));
    assert_eq!(event, Some(SecurityEvent::AccessDenied(403)));
}

fn open_place() -> RouteFacts {
    RouteFacts { has_policy: false, needs_country: false, needs_principal: false }
}

#[test]
fn ip_access_allow_passes_through() {
    let mut m = Metrics::new();
    let none = HeaderMap::new();
    let (verdict, event) =
        settle_policy(PolicyOutcome::Allow, &none, None, None, "/", None, &mut m);
    let allowed = verdict.ok().unwrap();
    assert_eq!(event, None);
    let mut rules = vec![];
    assert!(clear(allowed, None, &mut rules, &ctx(), &none, 0, &mut m).is_ok());
}

#[test]
fn first_rule_that_denies_is_named() {
    let mut m = Metrics::new();
    let none = HeaderMap::new();
    let mut rules = vec![rule("wide", 5), rule("tight", 1), rule("last", 1)];
    assert!(clear(no_policy(open_place()), None, &mut rules, &ctx(), &none, 1, &mut m).is_ok());
    match clear(no_policy(open_place()), None, &mut rules, &ctx(), &none, 1, &mut m) {
        Err(Stopped::Limited(name, secs)) => {
            assert_eq!(name, "tight");
            assert_eq!(secs, 1);
        }
        _ => panic!("expected the second rule to deny"),
    }
    assert_eq!(m.rate_limit_triggers, 1);
}

#[test]
fn location_may_ask_for_shorter_bodies() {
    let mut m = Metrics::new();
    let h = with(CONTENT_LENGTH, "10");
    let mut rules = vec![rule("r", 1)];
    let got = clear(no_policy(open_place()), Some(9), &mut rules, &ctx(), &h, 1, &mut m);
    assert!(matches!(got, Err(Stopped::TooLong)));
    assert_eq!(rules[0].bucket_count(), 0);
}

#[test]
fn fresh_tokens_are_issued_once() {
    let found = Principal::Authenticated(alice());
    assert!(fresh_token_due(false, Some(true), &found));
    assert!(!fresh_token_due(true, Some(true), &found));
    assert!(!fresh_token_due(false, Some(false), &found));
    assert!(!fresh_token_due(false, None, &found));
    assert!(!fresh_token_due(false, Some(true), &Principal::Anonymous));
    let mut m = Metrics::new();
    record_issued(&mut m);
    assert_eq!(m.jwt_issued, 1);
}

#[test]
fn refreshed_request_gets_one_session_token() {
    let p = provider();
    let mut m = Metrics::new();
    let outcome = Ok((alice(), "old".to_string()));
    let cookie = UserCookie::Issued("jwt=x".into());
    let (id, pending) = settle_refresh(&p, "old", outcome, cookie, false, &mut m);
    let found = Principal::Authenticated(alice());
    assert!(!fresh_token_due(id.is_some(), Some(true), &found));
    assert_eq!(answer_cookies(pending, None), vec!["jwt=x".to_string()]);
    assert_eq!(answer_cookies(vec![], Some("c".into())), vec!["c".to_string()]);
}

#[test]
fn logouts_are_counted() {
    let mut m = Metrics::new();
    record_logout(&mut m);
    assert_eq!(m.oidc_logouts, 1);
}

#[test]
fn certificate_names_are_joined() {
    let peer = PeerAddr::Unix;
    let mut s = HypershuntService::new_h3("b".into(), peer, Timeouts::default(), None, None);
    assert_eq!(s.cert_fields(), (String::new(), String::new()));
    s.client_cert = Some(ClientCert {
        cn: "alice".into(),
        subject: "CN=alice".into(),
        sans: vec!["a.com".into(), "b.com".into()],
    });
    assert_eq!(s.cert_fields(), ("CN=alice".to_string(), "a.com,b.com".to_string()));
}

#[test]
fn handler_timeout_returns_408() {
    let r = timeout_reply();
    assert_eq!(r.status, 408);
    assert!(matches!(r.body, ReplyBody::Text(t) if t == "<h1>408 Request Timeout</h1>"));
}

#[test]
fn jwks_endpoint_returns_ec_key_document() {
    let r = jwks_reply(r#"{"keys":[]}"#.to_string());
    assert_eq!(r.status, 200);
    assert_eq!(r.header("Content-Type"), Some("application/json"));
    assert_eq!(r.header("Cache-Control"), Some("public, max-age=3600"));
}

#[test]
fn alt_svc_auto_injected_when_absent() {
    assert_eq!(alt_svc_to_add(Some("h3=\":443\""), false).as_deref(), Some("h3=\":443\""));
}

#[test]
fn alt_svc_absent_when_not_configured() {
    assert_eq!(alt_svc_to_add(None, false), None);
}

#[test]
fn alt_svc_user_set_overrides_auto() {
    assert_eq!(alt_svc_to_add(Some("h3=\":443\""), true), None);
}

#[test]
fn versions_have_their_names() {
    assert_eq!(http_version_str(HttpVersion::Http09), "HTTP/0.9");
    assert_eq!(http_version_str(HttpVersion::Http10), "HTTP/1.0");
    assert_eq!(http_version_str(HttpVersion::Http11), "HTTP/1.1");
    assert_eq!(http_version_str(HttpVersion::Http2), "HTTP/2.0");
    assert_eq!(http_version_str(HttpVersion::Http3), "HTTP/3.0");
    assert_eq!(http_version_str(HttpVersion::Other), "HTTP/1.1");
    assert_eq!(log_user(""), "-");
    assert_eq!(log_user("alice"), "alice");
}

#[test]
fn compression_is_counted() {
    let mut m = Metrics::new();
    let done = CompressionStats {
        applied: Some(Encoding::Zstd),
        skipped: false,
        bytes_in: 100,
        bytes_out: 40,
    };
    record_compression(&mut m, &done);
    let skipped = CompressionStats { applied: None, skipped: true, bytes_in: 0, bytes_out: 0 };
    record_compression(&mut m, &skipped);
    assert_eq!((m.compress_responses_total, m.compress_skipped_total), (1, 1));
    assert_eq!((m.compress_bytes_in_total, m.compress_bytes_out_total), (100, 40));
    assert_eq!((m.compress_zstd_total, m.compress_gzip_total), (1, 0));
}

#[test]
fn geoip_misses_are_counted() {
    let mut m = Metrics::new();
    record_geoip(&mut m, true);
    record_geoip(&mut m, false);
    assert_eq!((m.geoip_lookups_total, m.geoip_lookup_misses_total), (2, 1));
}

#[test]
fn routed_requests_count_for_their_class() {
    let mut m = Metrics::new();
    let req = let_in(&HeaderMap::new(), None, &mut m).ok().unwrap();
    let class = Some((HandlerKind::Proxy, "example.com"));
    finish_routed(req, 502, 5, "/x", class, &mut m);
    assert_eq!((m.requests_active, m.status_5xx), (0, 1));
    assert_eq!(m.per_vhost.get("example.com").unwrap().snapshot().s5xx, 1);
}

#[test]
fn h3_service_is_served_over_tls() {
    let peer = PeerAddr::Tcp(SocketAddr::new(IpAddr::V4([1, 2, 3, 4]), 5));
    let s = HypershuntService::new_h3("b".into(), peer, Timeouts::default(), Some(9), None);
    assert_eq!(s.scheme(), "https");
    assert!(s.is_tls);
    assert_eq!(s.max_body_bytes, Some(9));
    assert!(s.client_cert.is_none());
}
