use base64::engine::general_purpose::URL_SAFE_NO_PAD;
use base64::Engine;
use hypershunt::metrics::Metrics;
use hypershunt::oidc::backchannel::{check_logout_claims, LogoutError, LogoutTarget};
use hypershunt::oidc::bearer::{check_bearer_claims, BearerError};
use hypershunt::oidc::cache::{BearerCacheEntry, Identity};
use hypershunt::oidc::claims::Claims;
use hypershunt::oidc::discovery::{backoff_secs, eviction_interval, DiscoveryPhase};
use hypershunt::oidc::hints::IdpHints;
use hypershunt::oidc::id_token::read_id_claims;
use hypershunt::oidc::jws::{parse_compact_jws, JwsError};
use hypershunt::oidc::login::{
    merge_userinfo, Exchange, Grant, LoginError, LoginSecrets, TokenReply, Tokens, UserInfo,
};
use hypershunt::oidc::session::{record_revocation, RefreshError, Revocation};
use hypershunt::oidc::{
    Discovered, OidcClient, OidcConfig, OidcProvider, RefreshEntry, StateEntry,
};
use openidconnect::PrivateSigningKey;
use sha2::Digest;

const SECRET: &[u8] = b"a secret that nobody else knows!";

/// Any moment will do, in nanoseconds.
const NOW: u64 = 9_000_000_000_000;
const SEC: u64 = 1_000_000_000;

/// Any time of day will do, in seconds.
const UNIX: u64 = 1_700_000_000;

/// The modulus of the key that signs the ID tokens below.
const MODULUS: &str = "\
    wjLNbiVjaDinbMML7PVDc6xN6rGmPd-OsnyCpKIotjy5SIDJVxgjKsnYYQ6pt5PjFsG3wWuupWXl\
    zfgNq8RXz-3byOPEsXT4aJ3tg_amP-kZT-fOiw49-J914C3wYht3hKAW4tCMMlN6Y3v7jD_zy8g7\
    NYu7WXUo0xlXRXXnp1zKN7ZT_EiIrEYPZz7UcqbG3TrBPYfb764spV2pXIzNQhxvuRDfed2kR-kZ\
    q2Tdzt1K8TkIjZSmXLOrsy0GoNWFlOsoCCggrr3nlxXsk5U9cA1orqRRFSeKxwcRWeuHXPOTpf63\
    cxDRKTUx8b7jVjMs3CN68haBeBd9nQ9pciuukw";

/// An ID token for `client-1`, valid for an hour from `UNIX` on, with a nonce.
const ID_TOKEN: &str = "\
    eyJhbGciOiJSUzI1NiIsImtpZCI6InRlc3Qta2V5In0.eyJpc3MiOiJodHRwczovL2lkcC5leGFt\
    cGxlIiwiYXVkIjoiY2xpZW50LTEiLCJzdWIiOiJhbGljZSIsImlhdCI6MTcwMDAwMDAwMCwiZXhw\
    IjoxNzAwMDAzNjAwLCJwcmVmZXJyZWRfdXNlcm5hbWUiOiJhbGljZS1wcmVmIiwiZ3JvdXBzIjpb\
    ImRldnMiXSwic2lkIjoiaWRwLXNlc3MtMSIsIm5vbmNlIjoibm5ubm5ubm5ubm5ubm5ubm5ubm5u\
    biJ9.eUv_PvQG-7irZ_ZNaImNM46w_ZzqKkmZ5MzDT4ncQ4M5s5anh3CzcNYO7otmng7RdS6GE2k\
    f9yy9tUQh8Ian9UTZ_bAtVE05jmwc6X6naECUr9A0HR3UzsEEqoYPGVT_IbxzC3FN1nh1sQCdFMj\
    9VErDGvUMoha2SOosS19UVso_ttLDCDPUJLcGzyl8_TnLSeKlnQDoCYWQQt9zlEg9pDHFO7S1ESt\
    NYNkAYQEC3Ircq21bXMaXuMGS4YsFInf0qEjqBOfJHbcG6E0kqlOMI1KquGc6BSHORkcYJi3Czca\
    Av1VfR1We7NHFytQwA297JJgCDqLTvq8xRXButVzj_Q";

/// The same without a nonce, as it comes with a refresh.
const REFRESHED_ID_TOKEN: &str = "\
    eyJhbGciOiJSUzI1NiIsImtpZCI6InRlc3Qta2V5In0.eyJpc3MiOiJodHRwczovL2lkcC5leGFt\
    cGxlIiwiYXVkIjoiY2xpZW50LTEiLCJzdWIiOiJhbGljZSIsImlhdCI6MTcwMDAwMDAwMCwiZXhw\
    IjoxNzAwMDAzNjAwLCJwcmVmZXJyZWRfdXNlcm5hbWUiOiJhbGljZS1wcmVmIiwiZ3JvdXBzIjpb\
    ImRldnMiXSwic2lkIjoiaWRwLXNlc3MtMSJ9.lB7raPaK0lNVvZVwgrNyXimV_ZIQ33cRwsW9N9u\
    2W_-gafH8ZD-SuLmjXss7bHQBqWTob7eeh_btGz4e-Q4uKPwYxxSJg1FMuhPv1ILnBdQ9G47ATrX\
    oZa4XvdyAFdpotDU7UwWCvg-65R344FPA_yTURDFzSWlB2R1NXBMyY63WTMnrGQgaNsbCkuQwAOZ\
    5zkybP79y3HM4BTn77oQ7cDuNsJgTD5hLzrh2yb58DQ58KDBBOj0p9z3G0yvyef5alvHA7dbvkOu\
    cOENR65LJVLVl0UGZRqAZ-E0DeSGrdFijmbsVyQ7ikYrRowPHCY019VFcgNm3yCzdzRy9BOKM0w";

/// The same as the first, for another client.
const FOREIGN_ID_TOKEN: &str = "\
    eyJhbGciOiJSUzI1NiIsImtpZCI6InRlc3Qta2V5In0.eyJpc3MiOiJodHRwczovL2lkcC5leGFt\
    cGxlIiwiYXVkIjoic29tZW9uZS1lbHNlIiwic3ViIjoiYWxpY2UiLCJpYXQiOjE3MDAwMDAwMDAs\
    ImV4cCI6MTcwMDAwMzYwMCwicHJlZmVycmVkX3VzZXJuYW1lIjoiYWxpY2UtcHJlZiIsImdyb3Vw\
    cyI6WyJkZXZzIl0sInNpZCI6ImlkcC1zZXNzLTEiLCJub25jZSI6Im5ubm5ubm5ubm5ubm5ubm5u\
    bm5ubm4ifQ.srDSe7iJQ2cxDp-OfUS0W44AVwU-4b2QiKGCi0a48h3d4Qjy1afkc01PI7BmFHLJ2\
    41MDPAYkPJK15eeg8XCXLtrcDAKnlUKrIBDTGnh0AtyEDvz-wYRky7TLd_jOg4Pkowibpkt874hM\
    zR1V68AUsE53BkPci-OpBNjrAcq-a73CHN8xClKrBx6BqBX-IN7it5GGTLg4nqokYT8HvSZatD5b\
    pdBMm7APYu8ist4zJ7WE2tg24ofT3PH5F8ch1nPRuKDuOAnwwT4oOPpshT7Hi3v4bb0REurellDh\
    0oRgfmNN-QKplANFT7YonThKDmAkQ82knc4qai0rgx8k2alIw";

/// An ID token whose second segment is padded and has bits behind its last byte. Its
/// claim on the mail address stands under an empty language tag.
const LOOSE_ID_TOKEN: &str = "\
    eyJhbGciOiJSUzI1NiIsImtpZCI6InRlc3Qta2V5In0.eyJpc3MiOiJodHRwczovL2lkcC5leGFt\
    cGxlIiwiYXVkIjoiY2xpZW50LTEiLCJzdWIiOiJhbGljZSIsImlhdCI6MTcwMDAwMDAwMCwiZXhw\
    IjoxNzAwMDAzNjAwLCJlbWFpbCI6bnVsbCwiZW1haWwjIjoiYWxpY2VAYS5leGFtcGxlIiwiZ3Jv\
    dXBzIjpbImRldnMiXSwic2lkIjoiaWRwLXNlc3MtMSIsIm5vbmNlIjoibm5ubm5ubm5ubm5ubm5u\
    bm5ubm5ubiIgIH3=.l0p49_R7RbWaAUKEkUbLvqnUI5pPd90jACesTd5LSXfc3BC1fAlriXva5-u\
    tSrSQkeVx4rkkxllV2pvdJ5T-l-YA6TG7kx2z_5Q8HDWkLYNPPWOQVWDkDf1--6o_zRGrpcMg7E8\
    68ixb30hYqCHskK4VxAystxmsBbj4bHTaR_6piHG70DnEue6Jro6y6CcEPTlShEritUxp_KQ13E4\
    5KOJhBRVrgKUfMlia6SIdVkZSrpWHu3zSqIthsgwt8MZt_1Ppx-XrDgjSBBisF3vIOikOIYg2qtw\
    sTvWZbObOS23mdKPRViGs87l0S7fuE8SpO-7_U_vZ-hiFmjV6xYJ2VQ";

/// The nonce of `ID_TOKEN`.
const NONCE: &str = "nnnnnnnnnnnnnnnnnnnnnn";

fn rsa_key() -> String {
    format!(r#"{{"kty":"RSA","alg":"RS256","use":"sig","kid":"test-key","n":"{MODULUS}","e":"AQAB"}}"#)
}

fn tokens(id_token: &str, refresh_token: Option<&str>) -> TokenReply {
    TokenReply::Tokens(Tokens {
        id_token: id_token.into(),
        userinfo: UserInfo::Unavailable,
        refresh_token: refresh_token.map(|t| t.into()),
    })
}

fn login_with(nonce: &str) -> StateEntry {
    StateEntry {
        pkce_verifier: "v".repeat(43),
        nonce: nonce.into(),
        return_to: "/".into(),
        created: NOW,
    }
}

fn config(refresh_ttl_secs: u64) -> OidcConfig {
    OidcConfig {
        issuer: "https://idp.example".into(),
        client_id: "id".into(),
        client_secret: None,
        redirect_uri: "https://app.example/cb".into(),
        scopes: vec!["openid".into()],
        username_claim: "sub".into(),
        groups_claim: "groups".into(),
        login_path: "/oidc/login".into(),
        callback_path: "/oidc/callback".into(),
        state_ttl_secs: 60,
        refresh: true,
        refresh_ttl_secs,
        refresh_cookie_name: "__hypershunt_oidc_refresh".into(),
        logout_path: "/oidc/logout".into(),
        post_logout_uri: "/".into(),
        idp_logout: true,
        userinfo: false,
        discovery_refresh_secs: 0,
        discovery_retry: true,
        backchannel_logout_enabled: true,
        backchannel_logout_path: "/oidc/backchannel-logout".into(),
        backchannel_max_iat_skew_secs: 120,
        backchannel_jti_ttl_secs: 300,
        bearer: false,
        bearer_audiences: vec![],
        bearer_cache_size: 16,
        revoke_on_logout: true,
        require_iss: false,
        resources: vec![],
    }
}

fn client() -> OidcClient {
    OidcClient {
        issuer: "https://idp.example".into(),
        authorization_url: "https://idp.example/authorize".into(),
    }
}

fn provider_for_store(refresh_ttl_secs: u64) -> OidcProvider {
    let mut p = OidcProvider::new(config(refresh_ttl_secs));
    p.client = Some(client());
    p
}

fn session(expires_at: u64, id_token: &str) -> RefreshEntry {
    RefreshEntry {
        refresh_token: "rt".into(),
        expires_at: expires_at as u128,
        id_token: id_token.into(),
        subject: "alice".into(),
        idp_sid: None,
    }
}

fn claims(text: &str) -> Claims {
    Claims::parse(text.as_bytes()).unwrap()
}

fn grant(refresh_token: Option<&str>) -> Exchange {
    Exchange::Granted(Grant {
        id_token: "the.id.token".into(),
        claims: claims(r#"{"sub":"alice","preferred_username":"alice-pref","groups":["devs"]}"#),
        subject: "alice".into(),
        userinfo: UserInfo::Unavailable,
        refresh_token: refresh_token.map(|t| t.into()),
    })
}

fn discovered() -> Discovered {
    Discovered {
        issuer: "https://idp.example".into(),
        authorization_url: "https://idp.example/authorize".into(),
        end_session_url: Some("https://idp.example/logout".into()),
        revocation_url: Some("https://idp.example/revoke".into()),
        jwks: vec![
            format!(r#"{{"kty":"oct","k":"{}"}}"#, URL_SAFE_NO_PAD.encode(SECRET)),
            rsa_key(),
        ],
    }
}

fn signed(payload: &str) -> String {
    let input = format!(
        "{}.{}",
        URL_SAFE_NO_PAD.encode(r#"{"alg":"HS256"}"#),
        URL_SAFE_NO_PAD.encode(payload)
    );
    let sig = openidconnect::core::CoreHmacKey::new(SECRET)
        .sign(&openidconnect::core::CoreJwsSigningAlgorithm::HmacSha256, input.as_bytes())
        .unwrap();
    format!("{input}.{}", URL_SAFE_NO_PAD.encode(sig))
}

fn logout_token(jti: &str, target: &str) -> String {
    let event = r#""events":{"http://schemas.openid.net/event/backchannel-logout":{}}"#;
    signed(&format!(
        r#"{{"iss":"https://idp.example","aud":"id","iat":{UNIX},{event},"jti":"{jti}",{target}}}"#
    ))
}

#[test]
fn full_login_refresh_revoke_flow_against_mock_idp() {
    let mut cfg = config(60);
    cfg.username_claim = "preferred_username".into();
    cfg.client_id = "client-1".into();
    let mut metrics = Metrics::new();
    let mut p = OidcProvider::new(cfg);
    let start = DiscoveryPhase::Bootstrap { attempt: 0 };
    let _ = p.discovery_step(start, Some(discovered()), &mut metrics);

    // Discovery surfaced the optional endpoints.
    assert!(p.end_session_url().is_some());
    assert_eq!(metrics.oidc_discoveries, 1);

    // Browser leg: the login waits under its state, and its nonce goes to the IdP.
    let secrets = LoginSecrets {
        state: "s".repeat(22),
        nonce: NONCE.into(),
        verifier: "v".repeat(43),
    };
    let (auth_url, state_id) = p
        .begin_login_with("/after".into(), IdpHints::default(), secrets, NOW)
        .expect("ready provider must build a login URL");
    let login = p.take_login(&state_id, NOW + SEC).ok().expect("state is waiting");
    assert!(auth_url.contains(&format!("nonce={}", login.nonce)), "{auth_url}");

    // Callback leg.
    let (ident, return_to, sid) = p
        .complete_login(login, tokens(ID_TOKEN, Some("rt-1")), NOW + SEC, UNIX, &mut metrics)
        .ok()
        .expect("tokens were given");
    assert_eq!(ident.username, "alice-pref");
    assert_eq!(ident.groups, vec!["devs".to_string()]);
    assert_eq!(return_to, "/after");
    let sid = sid.expect("refresh enabled -> sid cookie value");

    // State is single-use: replaying the callback fails.
    let err = p.take_login(&state_id, NOW + SEC).err().unwrap().message();
    assert!(err.contains("unknown or expired"), "got: {err}");

    // Refresh with rotation: the IdP returns a new refresh
    // token, so the session is re-keyed under a new sid.
    assert_eq!(p.begin_refresh(&sid, NOW + 2 * SEC).ok().unwrap(), "rt-1");
    let rotated = tokens(REFRESHED_ID_TOKEN, Some("rt-2"));
    let (ident2, sid2) =
        p.refresh(&sid, rotated, NOW + 2 * SEC, UNIX, &mut metrics).ok().unwrap();
    assert_eq!(ident2.username, "alice-pref");
    assert_ne!(sid2, sid, "rotation must re-key the session");
    assert_eq!(p.refresh_count(), 1, "old sid replaced, not added");

    // Refresh without rotation: same sid slides forward.
    let kept = tokens(REFRESHED_ID_TOKEN, None);
    let (_, sid3) = p.refresh(&sid2, kept, NOW + 3 * SEC, UNIX, &mut metrics).ok().unwrap();
    assert_eq!(sid3, sid2, "no rotation -> sid unchanged");

    // Unknown sid is rejected.
    assert!(p.begin_refresh("no-such-sid", NOW).is_err());

    // A request that cannot be made is no failure.
    assert_eq!(p.revoke_refresh_token("rt-1".into()).as_deref(), Some("rt-1"));
    record_revocation(&mut metrics, Revocation::Skipped);
    assert_eq!(metrics.oidc_revocations, 0);
    assert_eq!(metrics.oidc_revocation_failures, 0, "skip must not be recorded as a failure");
}

#[test]
fn expired_state_is_rejected_at_callback() {
    let mut cfg = config(60);
    cfg.state_ttl_secs = 0; // every state is born expired
    let mut p = OidcProvider::new(cfg);
    p.client = Some(client());

    let (_, state_id) = p.begin_login("/".into(), IdpHints::default(), NOW).unwrap();
    let err = p.take_login(&state_id, NOW + 20_000_000).err().unwrap().message();
    assert!(err.contains("state expired"), "got: {err}");
}

#[test]
fn evict_expired_drops_stale_states_and_refreshes() {
    let mut p = provider_for_store(60);
    // One live and one expired entry in each store.
    let (_, live_state) = p.begin_login("/x".into(), IdpHints::default(), NOW).unwrap();
    p.states.insert(
        "stale".into(),
        StateEntry {
            pkce_verifier: "v".repeat(43),
            nonce: "n".into(),
            return_to: "/".into(),
            created: NOW - 3600 * SEC,
        },
    );
    p.refreshes.insert("live".into(), session(NOW + 60 * SEC, ""));
    p.refreshes.insert("dead".into(), session(NOW - SEC, ""));

    p.evict_expired(NOW);

    assert!(p.states.contains_key(&live_state));
    assert!(!p.states.contains_key("stale"));
    assert!(p.refreshes.contains_key("live"));
    assert!(!p.refreshes.contains_key("dead"));
}

#[test]
fn provider_new_starts_in_not_ready_state() {
    let mut cfg = config(60);
    cfg.issuer = "https://127.0.0.1:1/".into();
    cfg.refresh = false;
    cfg.idp_logout = false;
    cfg.discovery_retry = false;
    cfg.backchannel_logout_enabled = false;
    let p = OidcProvider::new(cfg);
    assert!(!p.is_ready());
    assert!(p.client().is_none());
}

#[test]
fn userinfo_merge_disabled_returns_id_token_values() {
    let p = provider_for_store(60);
    let mut metrics = Metrics::new();
    let id = Identity { username: "alice".into(), groups: vec!["devs".into()] };
    let info = UserInfo::Claims(claims(r#"{"sub":"mallory","groups":["root"]}"#));
    let got = merge_userinfo(&p.cfg, &info, id, &mut metrics);
    assert_eq!(got.username, "alice");
    assert_eq!(got.groups, vec!["devs".to_string()]);
}

#[test]
fn refresh_store_evicts_expired_entries() {
    let mut p = provider_for_store(0);
    // Already in the past.
    p.refreshes.insert("sid".into(), session(NOW - SEC, "test"));
    assert_eq!(p.refresh_count(), 1);
    p.evict_expired(NOW);
    assert_eq!(p.refresh_count(), 0);
}

#[test]
fn take_logout_session_returns_stored_id_token() {
    let mut p = provider_for_store(60);
    p.refreshes.insert("sid".into(), session(NOW + 60 * SEC, "the-id-token"));
    let (id_tok, refresh_tok) = p.take_logout_session("sid").expect("first call");
    assert_eq!(id_tok, "the-id-token");
    assert_eq!(refresh_tok, "rt");
    // Second call returns None: pop semantics.
    assert!(p.take_logout_session("sid").is_none());
    assert_eq!(p.refresh_count(), 0);
}

#[test]
fn bearer_cache_returns_stored_identity() {
    // Direct exercise of the cache short-circuit: insert an
    // entry by hand and confirm validate_bearer_token returns
    // it without touching the JWS parser.
    let mut p = provider_for_store(60);
    let token = "anything";
    let key: [u8; 32] = sha2::Sha256::digest(token.as_bytes()).into();
    let id = Identity { username: "alice".into(), groups: vec!["devs".into()] };
    p.bearer_cache
        .put(key, BearerCacheEntry { identity: id.copy(), expires_at: UNIX + 600 });
    let got = p.validate_bearer_token(token, UNIX).ok().expect("cache hit");
    assert_eq!(got.username, id.username);
    assert_eq!(got.groups, id.groups);
}

#[test]
fn bearer_cache_evicts_expired_entry_on_lookup() {
    let mut p = provider_for_store(60);
    let token = "anything";
    let key: [u8; 32] = sha2::Sha256::digest(token.as_bytes()).into();
    p.bearer_cache.put(
        key,
        BearerCacheEntry {
            identity: Identity { username: "alice".into(), groups: vec![] },
            // Already past.
            expires_at: 0,
        },
    );
    // The validator should NOT return the expired entry; it
    // tries to parse "anything" as a JWS and fails. Either way, the
    // cache entry must be gone afterwards.
    assert!(p.validate_bearer_token(token, UNIX).is_err());
    assert!(p.bearer_cache.peek(&key).is_none());
}

#[test]
fn revoke_no_op_when_disabled_in_config() {
    let mut p_off = provider_for_store(60);
    p_off.revocation_url = Some("https://idp.example/revoke".into());
    p_off.cfg.revoke_on_logout = false;
    assert_eq!(p_off.revoke_refresh_token("rt".into()), None);
    let mut metrics = Metrics::new();
    record_revocation(&mut metrics, Revocation::Skipped);
    assert_eq!(metrics.oidc_revocations, 0);
    assert_eq!(metrics.oidc_revocation_failures, 0);
}

#[test]
fn issuer_strips_trailing_slash() {
    let mut p = provider_for_store(60);
    // Force a trailing slash on the configured issuer and
    // confirm the accessor returns the trimmed form.
    p.cfg.issuer = "https://idp.example/".into();
    assert_eq!(p.issuer(), "https://idp.example");
}

#[test]
fn record_jti_rejects_replay() {
    let mut p = provider_for_store(60);
    assert!(p.record_jti("jti-1", NOW));
    assert!(!p.record_jti("jti-1", NOW));
    // A different jti is still accepted.
    assert!(p.record_jti("jti-2", NOW));
}

#[test]
fn idp_hints_pairs_filters_none_and_preserves_order() {
    let h = IdpHints {
        login_hint: Some("alice@example".into()),
        prompt: None,
        max_age: Some("0".into()),
        acr_values: None,
        ui_locales: Some("fr".into()),
    };
    assert_eq!(
        h.pairs(),
        vec![("login_hint", "alice@example"), ("max_age", "0"), ("ui_locales", "fr")],
    );
}

#[test]
fn refresh_store_keeps_live_entries() {
    let mut p = provider_for_store(60);
    p.refreshes.insert("sid".into(), session(NOW + 60 * SEC, "test"));
    p.evict_expired(NOW);
    assert_eq!(p.refresh_count(), 1);
}

#[test]
fn accessors_read_the_configuration() {
    let p = provider_for_store(60);
    assert!(p.refresh_enabled());
    assert_eq!(p.refresh_cookie_name(), "__hypershunt_oidc_refresh");
    assert_eq!(p.refresh_ttl_secs(), 60);
    assert_eq!(p.login_path(), "/oidc/login");
    assert_eq!(p.callback_path(), "/oidc/callback");
    assert_eq!(p.logout_path(), "/oidc/logout");
    assert_eq!(p.post_logout_uri(), "/");
    assert_eq!(p.client_id(), "id");
    assert!(p.idp_logout_enabled());
    assert!(!p.require_iss());
    assert!(!p.bearer_enabled());
    assert!(p.backchannel_logout_enabled());
    assert_eq!(p.backchannel_logout_path(), "/oidc/backchannel-logout");
}

#[test]
fn login_url_carries_what_the_provider_needs() {
    let mut p = provider_for_store(60);
    p.cfg.resources = vec!["https://api.example".into()];
    let hints = IdpHints { login_hint: Some("alice".into()), ..Default::default() };
    let secrets = LoginSecrets {
        state: "the-state".into(),
        nonce: "the-nonce".into(),
        verifier: "v".repeat(43),
    };
    let (url, state) = p.begin_login_with("/x".into(), hints, secrets, NOW).unwrap();
    assert_eq!(state, "the-state");
    assert!(url.starts_with("https://idp.example/authorize?"), "{url}");
    for part in [
        "response_type=code",
        "client_id=id",
        "state=the-state",
        "nonce=the-nonce",
        "redirect_uri=https%3A%2F%2Fapp.example%2Fcb",
        "scope=openid",
        "login_hint=alice",
        "resource=https%3A%2F%2Fapi.example",
        "code_challenge_method=S256",
    ] {
        assert!(url.contains(part), "{part} in {url}");
    }
    assert_eq!(p.exchange_params(), vec![("resource", "https://api.example")]);
    let waiting = p.states.get("the-state").unwrap();
    assert_eq!(waiting.return_to, "/x");
    assert_eq!(waiting.created, NOW);
}

#[test]
fn fresh_secrets_differ() {
    let a = LoginSecrets::fresh();
    let b = LoginSecrets::fresh();
    assert_ne!(a.state, b.state);
    assert_ne!(a.nonce, b.nonce);
    assert_ne!(a.verifier, b.verifier);
    assert_eq!(a.verifier.len(), 43);
    assert_eq!(a.state.len(), 22);
    assert_eq!(a.nonce.len(), 22);
}

#[test]
fn nothing_begins_before_discovery() {
    let mut p = OidcProvider::new(config(60));
    assert!(p.begin_login("/".into(), IdpHints::default(), NOW).is_none());
    assert_eq!(p.take_login("s", NOW).err(), Some(LoginError::NotReady));
    assert_eq!(p.begin_refresh("s", NOW).err(), Some(RefreshError::NotReady));
}

#[test]
fn failed_exchanges_are_told_apart() {
    let mut p = provider_for_store(60);
    let mut metrics = Metrics::new();
    for (x, err) in [
        (TokenReply::Failed, LoginError::ExchangeFailed),
        (TokenReply::NoIdToken, LoginError::NoIdToken),
        (tokens(ID_TOKEN, None), LoginError::InvalidIdToken),
    ] {
        let (_, state) = p.begin_login("/".into(), IdpHints::default(), NOW).unwrap();
        let login = p.take_login(&state, NOW).ok().unwrap();
        assert_eq!(p.complete_login(login, x, NOW, UNIX, &mut metrics).err(), Some(err));
        assert_eq!(p.refresh_count(), 0);
    }
}

#[test]
fn refused_session_is_gone() {
    let mut p = provider_for_store(60);
    let mut metrics = Metrics::new();
    p.refreshes.insert("late".into(), session(NOW - 1, ""));
    assert_eq!(p.begin_refresh("late", NOW).err(), Some(RefreshError::Expired));
    assert_eq!(p.begin_refresh("late", NOW).err(), Some(RefreshError::UnknownSession));
    p.refreshes.insert("sid".into(), session(NOW, ""));
    assert!(p.begin_refresh("sid", NOW).is_ok());
    let err = p.refresh("sid", TokenReply::Failed, NOW, UNIX, &mut metrics).err();
    assert_eq!(err, Some(RefreshError::ExchangeFailed));
    assert_eq!(p.refresh_count(), 0);
}

#[test]
fn invalid_id_token_leaves_the_session() {
    let mut p = provider_for_store(60);
    let mut metrics = Metrics::new();
    p.refreshes.insert("sid".into(), session(NOW, ""));
    let err = p.refresh("sid", tokens("a.b.c", None), NOW, UNIX, &mut metrics).err();
    assert_eq!(err, Some(RefreshError::InvalidIdToken));
    let err = p.refresh("sid", TokenReply::NoIdToken, NOW, UNIX, &mut metrics).err();
    assert_eq!(err, Some(RefreshError::NoIdToken));
    assert_eq!(p.refresh_count(), 1);
}

#[test]
fn refresh_slides_the_session() {
    let mut p = provider_for_store(60);
    let mut metrics = Metrics::new();
    p.refreshes.insert("sid".into(), session(NOW, ""));
    let (_, sid) = p.refresh_with("sid", grant(None), "new".into(), NOW, &mut metrics).ok().unwrap();
    let e = p.refreshes.get(&sid).unwrap();
    assert_eq!(e.expires_at, (NOW + 60 * SEC) as u128);
    assert_eq!(e.id_token, "the.id.token");
    assert_eq!(e.refresh_token, "rt");
}

#[test]
fn userinfo_overrides_the_id_token() {
    let mut cfg = config(60);
    cfg.userinfo = true;
    let mut metrics = Metrics::new();
    let id = || Identity { username: "alice".into(), groups: vec!["devs".into()] };
    let full = UserInfo::Claims(claims(r#"{"sub":"al","groups":["ops"]}"#));
    let got = merge_userinfo(&cfg, &full, id(), &mut metrics);
    assert_eq!((got.username.as_str(), got.groups), ("al", vec!["ops".to_string()]));
    let blank = UserInfo::Claims(claims(r#"{"groups":[]}"#));
    let got = merge_userinfo(&cfg, &blank, id(), &mut metrics);
    assert_eq!((got.username.as_str(), got.groups), ("alice", vec!["devs".to_string()]));
    assert_eq!(metrics.oidc_userinfo_failures, 0);
    let got = merge_userinfo(&cfg, &UserInfo::Failed, id(), &mut metrics);
    assert_eq!(got.username, "alice");
    assert_eq!(metrics.oidc_userinfo_failures, 1);
}

#[test]
fn discovery_waits_ever_longer() {
    let waits: Vec<u64> = (0..10).map(backoff_secs).collect();
    assert_eq!(waits, vec![1, 2, 4, 8, 16, 32, 64, 128, 256, 256]);
    assert_eq!(backoff_secs(u32::MAX), 256);
}

#[test]
fn discovery_goes_on_until_it_succeeds() {
    let mut p = OidcProvider::new(config(60));
    p.cfg.discovery_refresh_secs = 3600;
    let mut m = Metrics::new();
    let (phase, wait) = p.discovery_step(DiscoveryPhase::Bootstrap { attempt: 0 }, None, &mut m);
    assert_eq!((phase, wait), (DiscoveryPhase::Bootstrap { attempt: 1 }, Some(1)));
    assert!(!p.is_ready());
    let (phase, wait) = p.discovery_step(phase, Some(discovered()), &mut m);
    assert_eq!((phase, wait), (DiscoveryPhase::Periodic, Some(3600)));
    assert!(p.is_ready());
    // A later look that fails keeps what is known.
    let (phase, wait) = p.discovery_step(phase, None, &mut m);
    assert_eq!((phase, wait), (DiscoveryPhase::Periodic, Some(3600)));
    assert!(p.is_ready());
    assert_eq!(p.end_session_url(), Some("https://idp.example/logout"));
    assert_eq!((m.oidc_discoveries, m.oidc_discovery_failures), (1, 2));
}

#[test]
fn discovery_without_retry_stops() {
    let mut p = OidcProvider::new(config(60));
    p.cfg.discovery_retry = false;
    let mut m = Metrics::new();
    let (phase, wait) = p.discovery_step(DiscoveryPhase::Bootstrap { attempt: 0 }, None, &mut m);
    assert_eq!((phase, wait), (DiscoveryPhase::Stopped, None));
    let (phase, _) = p.discovery_step(phase, None, &mut m);
    assert_eq!(phase, DiscoveryPhase::Stopped);
}

#[test]
fn sweeps_come_every_tenth_of_a_login() {
    assert_eq!(eviction_interval(600), 60 * SEC as u128);
    assert_eq!(eviction_interval(60), 30 * SEC as u128);
}

#[test]
fn valid_bearer_is_remembered() {
    let mut p = provider_for_store(60);
    p.cfg.bearer_audiences = vec!["api".into()];
    let mut m = Metrics::new();
    p.publish(discovered(), &mut m);
    let exp = UNIX + 100;
    let token = signed(&format!(
        r#"{{"iss":"https://idp.example","aud":["x","api"],"exp":{exp},"sub":"bob","groups":"a b"}}"#
    ));
    let id = p.validate_bearer_token(&token, UNIX).ok().unwrap();
    assert_eq!(id.username, "bob");
    assert_eq!(id.groups, vec!["a".to_string(), "b".to_string()]);
    // The keys are gone, but the token is still known until it expires.
    p.jwks = None;
    assert!(p.validate_bearer_token(&token, UNIX + 99).is_ok());
    assert_eq!(p.validate_bearer_token(&token, UNIX + 100).err(), Some(BearerError::NoKeys));
}

#[test]
fn bearer_cache_drops_the_least_recently_used() {
    let mut p = provider_for_store(60);
    p.cfg.bearer_audiences = vec!["api".into()];
    let mut m = Metrics::new();
    p.publish(discovered(), &mut m);
    let token = |n: usize| {
        signed(&format!(
            r#"{{"iss":"https://idp.example","aud":"api","exp":{},"sub":"u{n}"}}"#,
            UNIX + 100
        ))
    };
    for n in 0..17 {
        assert!(p.validate_bearer_token(&token(n), UNIX).is_ok());
    }
    p.jwks = None;
    assert_eq!(p.validate_bearer_token(&token(0), UNIX).err(), Some(BearerError::NoKeys));
    assert!(p.validate_bearer_token(&token(1), UNIX).is_ok());
    assert!(p.validate_bearer_token(&token(16), UNIX).is_ok());
}

#[test]
fn bearer_errors_are_told_apart() {
    let mut cfg = config(60);
    cfg.bearer_audiences = vec!["api".into()];
    let kind = |text: &str| check_bearer_claims(&cfg, &claims(text), 1000).err();
    let iss = r#""iss":"https://idp.example""#;
    assert_eq!(kind("{}"), Some(BearerError::MissingIssuer));
    assert_eq!(kind(r#"{"iss":"https://evil"}"#), Some(BearerError::WrongIssuer));
    assert_eq!(kind(&format!("{{{iss}}}")), Some(BearerError::WrongAudience));
    assert_eq!(kind(&format!(r#"{{{iss},"aud":"x"}}"#)), Some(BearerError::WrongAudience));
    let aud = format!(r#"{iss},"aud":"api""#);
    assert_eq!(kind(&format!("{{{aud}}}")), Some(BearerError::MissingExpiry));
    assert_eq!(kind(&format!(r#"{{{aud},"exp":1000}}"#)), Some(BearerError::Expired));
    assert_eq!(
        kind(&format!(r#"{{{aud},"exp":2000,"nbf":1031}}"#)),
        Some(BearerError::NotYetValid)
    );
    assert_eq!(kind(&format!(r#"{{{aud},"exp":2000,"nbf":1030,"sub":"u"}}"#)), None);

    let mut p = provider_for_store(60);
    assert_eq!(
        p.validate_bearer_token("x", UNIX).err(),
        Some(BearerError::Jws(JwsError::Malformed))
    );
    let token = signed("{}");
    assert_eq!(p.validate_bearer_token(&token, UNIX).err(), Some(BearerError::NoKeys));
    p.jwks = Some(vec![]);
    assert_eq!(p.validate_bearer_token(&token, UNIX).err(), Some(BearerError::BadSignature));
}

#[test]
fn logout_token_ends_the_named_sessions() {
    let mut p = provider_for_store(60);
    let mut m = Metrics::new();
    p.publish(discovered(), &mut m);
    p.refreshes.insert("a".into(), session(NOW + SEC, ""));
    p.refreshes.insert("b".into(), session(NOW + SEC, ""));
    let mut other = session(NOW + SEC, "");
    other.subject = "bob".into();
    other.idp_sid = Some("s7".into());
    p.refreshes.insert("c".into(), other);

    let by_user = logout_token("j1", r#""sub":"alice""#);
    assert_eq!(p.apply_backchannel_logout(&by_user, NOW, UNIX).ok(), Some(2));
    assert_eq!(p.refresh_count(), 1);
    // The same token again ends nothing.
    assert_eq!(
        p.apply_backchannel_logout(&by_user, NOW, UNIX).err(),
        Some(LogoutError::Replay)
    );
    let by_session = logout_token("j2", r#""sub":"carol","sid":"s7""#);
    assert_eq!(p.apply_backchannel_logout(&by_session, NOW, UNIX).ok(), Some(1));
    assert_eq!(p.refresh_count(), 0);
}

#[test]
fn logout_errors_are_told_apart() {
    let cfg = config(60);
    let kind = |text: String| check_logout_claims(&cfg, &claims(&text), 1000).err();
    let iss = r#""iss":"https://idp.example""#;
    let aud = format!(r#"{iss},"aud":"id""#);
    let iat = format!(r#"{aud},"iat":1000"#);
    let event = r#""events":{"http://schemas.openid.net/event/backchannel-logout":{}}"#;
    assert_eq!(kind("{}".into()), Some(LogoutError::MissingIssuer));
    assert_eq!(kind(r#"{"iss":"x"}"#.into()), Some(LogoutError::WrongIssuer));
    assert_eq!(kind(format!("{{{iss}}}")), Some(LogoutError::WrongAudience));
    assert_eq!(kind(format!("{{{aud}}}")), Some(LogoutError::MissingIssuedAt));
    assert_eq!(kind(format!(r#"{{{aud},"iat":1121}}"#)), Some(LogoutError::OutsideSkew));
    assert_eq!(kind(format!(r#"{{{aud},"iat":879}}"#)), Some(LogoutError::OutsideSkew));
    assert_eq!(kind(format!("{{{iat}}}")), Some(LogoutError::MissingEvents));
    assert_eq!(kind(format!(r#"{{{iat},"events":{{}}}}"#)), Some(LogoutError::WrongEvent));
    assert_eq!(
        kind(format!(r#"{{{iat},{event},"nonce":"n"}}"#)),
        Some(LogoutError::HasNonce)
    );
    assert_eq!(kind(format!("{{{iat},{event}}}")), Some(LogoutError::NoSubject));
    assert_eq!(
        kind(format!(r#"{{{iat},{event},"sub":"u"}}"#)),
        Some(LogoutError::MissingId)
    );
    let good = claims(&format!(r#"{{{iat},{event},"sub":"u","jti":"j"}}"#));
    let (target, jti) = check_logout_claims(&cfg, &good, 1120).ok().unwrap();
    assert!(matches!(target, LogoutTarget::Subject(s) if s == "u"));
    assert_eq!(jti, "j");

    let mut p = provider_for_store(60);
    assert_eq!(
        p.apply_backchannel_logout("x", NOW, UNIX).err(),
        Some(LogoutError::Jws(JwsError::Malformed))
    );
    let token = signed("{}");
    assert_eq!(p.apply_backchannel_logout(&token, NOW, UNIX).err(), Some(LogoutError::NoKeys));
    p.jwks = Some(vec![]);
    assert_eq!(
        p.apply_backchannel_logout(&token, NOW, UNIX).err(),
        Some(LogoutError::BadSignature)
    );
}

#[test]
fn noted_logout_tokens_are_forgotten_in_time() {
    let mut p = provider_for_store(60);
    assert!(p.record_jti("j", NOW));
    assert!(!p.record_jti("j", NOW + 299 * SEC));
    assert!(p.record_jti("j", NOW + 300 * SEC));
}

#[test]
fn revocations_are_counted() {
    let mut m = Metrics::new();
    record_revocation(&mut m, Revocation::Revoked);
    record_revocation(&mut m, Revocation::Failed);
    record_revocation(&mut m, Revocation::Failed);
    assert_eq!((m.oidc_revocations, m.oidc_revocation_failures), (1, 2));
}

#[test]
fn revocation_needs_an_address() {
    let mut p = provider_for_store(60);
    assert_eq!(p.revoke_refresh_token("rt".into()), None);
    p.revocation_url = Some("https://idp.example/revoke".into());
    assert_eq!(p.revoke_refresh_token("rt".into()).as_deref(), Some("rt"));
    p.client = None;
    assert_eq!(p.revoke_refresh_token("rt".into()), None);
}

fn ready_for_id_tokens() -> OidcProvider {
    let mut p = provider_for_store(60);
    p.cfg.client_id = "client-1".into();
    p.jwks = Some(vec![rsa_key()]);
    p
}

#[test]
fn id_token_is_valid_for_its_client_and_nonce_only() {
    let p = ready_for_id_tokens();
    let check = |token, nonce, now| p.check_id_token(token, nonce, now);
    assert_eq!(check(ID_TOKEN, Some(NONCE), UNIX).as_deref(), Some("alice"));
    // Another nonce, none at all, and a token without one.
    assert_eq!(check(ID_TOKEN, Some("another"), UNIX), None);
    assert_eq!(check(ID_TOKEN, None, UNIX).as_deref(), Some("alice"));
    assert_eq!(check(REFRESHED_ID_TOKEN, None, UNIX).as_deref(), Some("alice"));
    assert_eq!(check(REFRESHED_ID_TOKEN, Some(NONCE), UNIX), None);
    // Another audience.
    assert_eq!(check(FOREIGN_ID_TOKEN, Some(NONCE), UNIX), None);
    // The last second, and the first one that is too late.
    assert_eq!(check(ID_TOKEN, Some(NONCE), UNIX + 3599).as_deref(), Some("alice"));
    assert_eq!(check(ID_TOKEN, Some(NONCE), UNIX + 3600), None);
    // No token.
    assert_eq!(check("a.b.c", None, UNIX), None);
}

#[test]
fn id_token_needs_the_key_and_the_issuer() {
    let mut p = ready_for_id_tokens();
    p.jwks = None;
    assert_eq!(p.check_id_token(ID_TOKEN, Some(NONCE), UNIX), None);
    p.jwks = Some(vec!["no key".into()]);
    assert_eq!(p.check_id_token(ID_TOKEN, Some(NONCE), UNIX), None);
    p.jwks = Some(vec![rsa_key()]);
    p.cfg.client_secret = Some("the secret of the client".into());
    assert!(p.check_id_token(ID_TOKEN, Some(NONCE), UNIX).is_some());
    p.client = Some(OidcClient {
        issuer: "https://other.example".into(),
        authorization_url: "https://other.example/authorize".into(),
    });
    assert_eq!(p.check_id_token(ID_TOKEN, Some(NONCE), UNIX), None);
    p.client = None;
    assert_eq!(p.check_id_token(ID_TOKEN, Some(NONCE), UNIX), None);
    // The signature covers every byte.
    let mut p = ready_for_id_tokens();
    let bent = ID_TOKEN.replacen("eyJpc3M", "eyJpc3N", 1);
    assert_ne!(bent, ID_TOKEN);
    assert_eq!(p.check_id_token(&bent, Some(NONCE), UNIX), None);
    let mut metrics = Metrics::new();
    let err = p.complete_login(login_with("other"), tokens(ID_TOKEN, None), NOW, UNIX, &mut metrics);
    assert_eq!(err.err(), Some(LoginError::InvalidIdToken));
}

#[test]
fn session_belongs_to_the_subject_of_the_token() {
    let mut p = ready_for_id_tokens();
    let mut metrics = Metrics::new();
    let reply = tokens(ID_TOKEN, Some("rt-1"));
    let (id, _, sid) =
        p.complete_login(login_with(NONCE), reply, NOW, UNIX, &mut metrics).ok().unwrap();
    assert_eq!((id.username.as_str(), id.groups), ("alice", vec!["devs".to_string()]));
    let e = p.refreshes.get(&sid.unwrap()).unwrap();
    assert_eq!((e.subject.as_str(), e.idp_sid.as_deref()), ("alice", Some("idp-sess-1")));
    assert_eq!(e.id_token, ID_TOKEN);
}

#[test]
fn loosely_encoded_id_token_has_its_claims() {
    let mut p = ready_for_id_tokens();
    p.cfg.username_claim = "email".into();
    let mut metrics = Metrics::new();
    let reply = tokens(LOOSE_ID_TOKEN, Some("rt-1"));
    let (id, _, sid) =
        p.complete_login(login_with(NONCE), reply, NOW, UNIX, &mut metrics).ok().unwrap();
    assert_eq!((id.username.as_str(), id.groups), ("alice@a.example", vec!["devs".to_string()]));
    let e = p.refreshes.get(&sid.unwrap()).unwrap();
    assert_eq!((e.subject.as_str(), e.idp_sid.as_deref()), ("alice", Some("idp-sess-1")));
    // A signed token of another kind is read strictly.
    assert!(matches!(parse_compact_jws(LOOSE_ID_TOKEN), Err(JwsError::PayloadBase64)));
}

#[test]
fn only_empty_tags_on_user_claims_do_not_count() {
    let token = |payload: &str| format!("h.{}.s", URL_SAFE_NO_PAD.encode(payload));
    let c = read_id_claims(&token(r##"{"name#":"a","name#fr":"b","name##":"c","dept#":"d"}"##));
    assert_eq!(c.text("name").as_deref(), Some("a"));
    assert_eq!(c.text("name#"), None);
    assert_eq!(c.text("name#fr").as_deref(), Some("b"));
    assert_eq!(c.text("name##").as_deref(), Some("c"));
    assert_eq!(c.text("dept#").as_deref(), Some("d"));
    assert_eq!(c.text("dept"), None);
    assert!(read_id_claims(&token(r#"{"email":null}"#)).members.is_empty());
    assert!(read_id_claims("h.e30").members.is_empty());
}

#[test]
fn audience_of_an_id_token_is_a_list() {
    let c = read_id_claims(ID_TOKEN);
    assert_eq!(c.text("aud"), None);
    assert_eq!(c.text("sub").as_deref(), Some("alice"));
    assert!(read_id_claims("a.b.c").members.is_empty());
}

#[test]
fn boundless_skew_refuses_no_moment() {
    let mut cfg = config(60);
    let event = r#""events":{"http://schemas.openid.net/event/backchannel-logout":{}}"#;
    let old = claims(&format!(
        r#"{{"iss":"https://idp.example","aud":"id","iat":-5,{event},"sub":"u","jti":"j"}}"#
    ));
    assert_eq!(check_logout_claims(&cfg, &old, 1000).err(), Some(LogoutError::OutsideSkew));
    cfg.backchannel_max_iat_skew_secs = 1 << 63;
    assert!(check_logout_claims(&cfg, &old, 1000).is_ok());
    cfg.backchannel_max_iat_skew_secs = u64::MAX;
    assert!(check_logout_claims(&cfg, &old, 1000).is_ok());
    cfg.backchannel_max_iat_skew_secs = 1004;
    assert!(check_logout_claims(&cfg, &old, 1000).is_err());
    cfg.backchannel_max_iat_skew_secs = 1005;
    assert!(check_logout_claims(&cfg, &old, 1000).is_ok());
}
