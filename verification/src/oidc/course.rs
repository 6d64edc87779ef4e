//! The course of logins and sessions, in terms of what is held of them.
use crate::metrics::Metrics;
use crate::oidc::backchannel::{
    logout_applied, logout_claims, logout_pushed, LogoutError, TargetView,
};
use crate::oidc::cache::IdentityView;
use crate::oidc::claims::{i64_claim, member, text_claim, texts, ClaimView, ClaimsView};
use crate::oidc::discovery::sweep_every;
use crate::oidc::id_token::{id_claims, id_token_subject, key_set};
use crate::oidc::jws::{jws_in, signed_by_one_of};
use crate::oidc::login::{
    authorize_url, exchange_counted, exchange_of, granted_identity, login_begun, login_left,
    login_result, state_taken, ExchangeView, GrantView, LoginError, SecretsView, TokenReply,
};
use crate::oidc::session::{
    logout_session, refresh_begun, refresh_left, refresh_result, revocation_counted, revocation_due,
    session_dropped, swept, RefreshError, Revocation,
};
use crate::oidc::who::{
    is_for, is_from, law_claim_by_its_kind, lemma_is_for, lemma_is_from, says,
};
use crate::oidc::{fresh_provider, OidcConfig, ProviderView, RefreshView, StateView};
use vstd::prelude::*;

verus! {

/// A logout token that names a subject, and was not seen before, ends every session of that
/// subject and no other: the sessions of others are left as they were. It answers how many
/// it ended.
pub proof fn law_subject_logout(
    cfg: OidcConfig,
    p: ProviderView,
    subject: Seq<char>,
    jti: Seq<char>,
    now: u64,
    sid: Seq<char>,
)
    requires
        !p.seen_jtis.dom().contains(jti) || p.seen_jtis[jti] <= now,
    ensures
        ({
            let (r, left) = logout_applied(cfg, p, TargetView::Subject(subject), jti, now);
            &&& r == Ok::<int, LogoutError>(p.refreshes.dom().len() - left.refreshes.dom().len())
            &&& left.refreshes.dom().contains(sid) <==> p.refreshes.dom().contains(sid)
                && p.refreshes[sid].subject != subject
            &&& left.refreshes.dom().contains(sid) ==> left.refreshes[sid] == p.refreshes[sid]
            &&& left == (ProviderView {
                refreshes: left.refreshes,
                seen_jtis: left.seen_jtis,
                ..p
            })
        }),
{
}

/// A logout token that names a session ends the sessions that the provider knows by that
/// name, whoever's they are, and no other.
pub proof fn law_session_logout(
    cfg: OidcConfig,
    p: ProviderView,
    name: Seq<char>,
    jti: Seq<char>,
    now: u64,
    sid: Seq<char>,
)
    requires
        !p.seen_jtis.dom().contains(jti) || p.seen_jtis[jti] <= now,
    ensures
        ({
            let (r, left) = logout_applied(cfg, p, TargetView::Session(name), jti, now);
            &&& r == Ok::<int, LogoutError>(p.refreshes.dom().len() - left.refreshes.dom().len())
            &&& left.refreshes.dom().contains(sid) <==> p.refreshes.dom().contains(sid)
                && p.refreshes[sid].idp_sid != Some(name)
            &&& left.refreshes.dom().contains(sid) ==> left.refreshes[sid] == p.refreshes[sid]
            &&& left == (ProviderView {
                refreshes: left.refreshes,
                seen_jtis: left.seen_jtis,
                ..p
            })
        }),
{
}

/// A logout token is noted under its id for as long as configured. Until then a second one
/// of that id is refused and ends nothing. Ids whose time is over are forgotten.
pub proof fn law_logout_is_noted(
    cfg: OidcConfig,
    p: ProviderView,
    t: TargetView,
    jti: Seq<char>,
    now: u64,
    other: Seq<char>,
)
    ensures
        ({
            let (r, left) = logout_applied(cfg, p, t, jti, now);
            let seen = p.seen_jtis.dom().contains(jti) && p.seen_jtis[jti] > now;
            &&& seen ==> r == Err::<int, _>(LogoutError::Replay) && left.refreshes == p.refreshes
            &&& !seen ==> r is Ok && left.seen_jtis.dom().contains(jti) && left.seen_jtis[jti] as int
                == now + cfg.backchannel_jti_ttl_secs * 1_000_000_000
            &&& other != jti || seen ==> (left.seen_jtis.dom().contains(other)
                <==> p.seen_jtis.dom().contains(other) && p.seen_jtis[other] > now)
            &&& other != jti && left.seen_jtis.dom().contains(other) ==> left.seen_jtis[other]
                == p.seen_jtis[other]
        }),
{
}

/// A logout token is taken if and only if it comes from the issuer, is for this client, was
/// issued within the allowed distance from now, is about a logout, carries no nonce, and
/// names a session or a subject and itself.
pub proof fn law_logout_is_accepted(cfg: OidcConfig, c: ClaimsView, unix_now: u64)
    ensures
        logout_claims(cfg, c, unix_now) is Ok <==> {
            &&& is_from(c, cfg.issuer@)
            &&& is_for(c, seq![cfg.client_id@])
            &&& i64_claim(c, "iat"@) is Some && unix_now - i64_claim(c, "iat"@)->0
                <= cfg.backchannel_max_iat_skew_secs && i64_claim(c, "iat"@)->0 - unix_now
                <= cfg.backchannel_max_iat_skew_secs
            &&& member(c, "events"@) is Some && member(c, "events"@)->0 is Object && (member(
                c,
                "events"@,
            )->0)->Object_0.contains("http://schemas.openid.net/event/backchannel-logout"@)
            &&& member(c, "nonce"@) is None
            &&& text_claim(c, "sid"@) is Some || text_claim(c, "sub"@) is Some
            &&& text_claim(c, "jti"@) is Some
        },
        logout_claims(cfg, c, unix_now) matches Ok((t, jti)) ==> text_claim(c, "jti"@) == Some(jti)
            && t == (if text_claim(c, "sid"@) is Some {
            TargetView::Session(text_claim(c, "sid"@)->0)
        } else {
            TargetView::Subject(text_claim(c, "sub"@)->0)
        }),
{
    lemma_is_from(cfg, c);
    lemma_is_for(c, seq![cfg.client_id@]);
}

/// A logout token is taken if and only if it is a JWS that one of the provider's keys signed
/// and whose claims are accepted. It then does what its claims say, and otherwise nothing.
pub proof fn law_logout_is_signed(
    cfg: OidcConfig,
    p: ProviderView,
    token: Seq<char>,
    now: u64,
    unix_now: u64,
)
    ensures
        ({
            let (r, left) = logout_pushed(cfg, p, token, now, unix_now);
            let payload = jws_in(token)->Ok_0.payload;
            let ok = jws_in(token) is Ok && p.jwks is Some && signed_by_one_of(
                p.jwks->0,
                jws_in(token)->Ok_0,
            ) && logout_claims(cfg, payload, unix_now) is Ok;
            let (t, jti) = logout_claims(cfg, payload, unix_now)->Ok_0;
            &&& ok ==> (r, left) == logout_applied(cfg, p, t, jti, now)
            &&& !ok ==> r is Err && left == p
            &&& jws_in(token) matches Err(e) ==> r == Err::<int, _>(LogoutError::Jws(e))
            &&& jws_in(token) is Ok && p.jwks is None ==> r == Err::<int, _>(LogoutError::NoKeys)
            &&& jws_in(token) is Ok && p.jwks is Some && !signed_by_one_of(
                p.jwks->0,
                jws_in(token)->Ok_0,
            ) ==> r == Err::<int, _>(LogoutError::BadSignature)
        }),
{
}

/// A login that can begin sends the browser to the provider's address for this client, with
/// the fresh secrets and with the configured resources before the hints, and remembers what
/// the callback needs, under the state. Nothing else changes.
pub proof fn law_login_begins(
    cfg: OidcConfig,
    p: ProviderView,
    return_to: Seq<char>,
    hints: Seq<(Seq<char>, Seq<char>)>,
    s: SecretsView,
    now: u64,
    other: Seq<char>,
)
    ensures
        ({
            let (r, left) = login_begun(cfg, p, return_to, hints, s, now);
            let params = Seq::new(cfg.resources@.len(), |i: int| ("resource"@, cfg.resources@[i]@))
                + hints;
            let url = authorize_url(
                p.client->Some_0.0,
                p.client->Some_0.1,
                cfg.client_id@,
                cfg.redirect_uri@,
                Seq::new(cfg.scopes@.len(), |i: int| cfg.scopes@[i]@),
                params,
                s.state,
                s.nonce,
                s.verifier,
            );
            if p.client is Some && url is Some {
                &&& r == Some((url->0, s.state))
                &&& left.states.dom().contains(s.state)
                &&& left.states[s.state].pkce_verifier == s.verifier
                &&& left.states[s.state].nonce == s.nonce
                &&& left.states[s.state].return_to == return_to
                &&& left.states[s.state].created == now
                &&& other != s.state ==> left.states.dom().contains(other)
                    == p.states.dom().contains(other) && left.states[other] == p.states[other]
                &&& left == (ProviderView { states: left.states, ..p })
            } else {
                r is None && left == p
            }
        }),
{
    let params = Seq::new(cfg.resources@.len(), |i: int| ("resource"@, cfg.resources@[i]@)) + hints;
    assert(params =~= crate::oidc::login::login_params(texts(cfg.resources@), hints));
    assert(texts(cfg.scopes@) =~= Seq::new(cfg.scopes@.len(), |i: int| cfg.scopes@[i]@));
}

/// A callback gets the login that waits under its state, unless that began longer ago than
/// allowed, and either way no other callback gets it.
pub proof fn law_login_is_taken(
    p: ProviderView,
    ttl_secs: u64,
    state: Seq<char>,
    now: u64,
    other: Seq<char>,
)
    requires
        p.client is Some,
    ensures
        ({
            let (r, left) = state_taken(p, ttl_secs, state, now);
            let known = p.states.dom().contains(state);
            let late = now > p.states[state].created + ttl_secs * 1_000_000_000;
            &&& !known ==> r == Err::<StateView, _>(LoginError::UnknownState) && left == p
            &&& known && late ==> r == Err::<StateView, _>(LoginError::StateExpired)
            &&& known && !late ==> r == Ok::<_, LoginError>(p.states[state])
            &&& !left.states.dom().contains(state)
            &&& other != state ==> left.states.dom().contains(other) == p.states.dom().contains(
                other,
            ) && left.states[other] == p.states[other]
            &&& left == (ProviderView { states: left.states, ..p })
        }),
{
    let left = state_taken(p, ttl_secs, state, now).1;
    if !p.states.dom().contains(state) {
        assert(left == p);
    }
}

/// What a reply to a request for tokens amounts to: its ID token is validated for this
/// client, by the provider's issuer and keys, and with the nonce where one is asked for.
pub proof fn law_reply_is_validated(
    cfg: OidcConfig,
    p: ProviderView,
    reply: TokenReply,
    nonce: Option<Seq<char>>,
    unix_now: u64,
)
    ensures
        ({
            let x = exchange_of(cfg, p, reply, nonce, unix_now);
            match reply {
                TokenReply::Failed => x is Failed,
                TokenReply::NoIdToken => x is NoIdToken,
                TokenReply::Tokens(t) => {
                    let secret = match cfg.client_secret {
                        Some(s) => Some(s@),
                        None => None,
                    };
                    let subject = if p.client is Some {
                        id_token_subject(
                            t.id_token@,
                            p.client->Some_0.0,
                            cfg.client_id@,
                            secret,
                            key_set(p.jwks),
                            nonce,
                            unix_now,
                        )
                    } else {
                        None
                    };
                    &&& subject is None ==> x is InvalidIdToken
                    &&& subject is Some ==> x is Granted && {
                        let g = x->Granted_0;
                        &&& g.id_token == t.id_token@
                        &&& g.subject == subject->0
                        &&& g.claims == id_claims(t.id_token@)
                        &&& g.userinfo == t.userinfo@
                        &&& t.refresh_token matches Some(rt) ==> g.refresh_token == Some(rt@)
                        &&& t.refresh_token is None ==> g.refresh_token is None
                    }
                },
            }
        }),
{
}

/// What a session holds: the refresh token, until when it lasts, the ID token with its
/// subject, and the provider's name for it, where the ID token gives one.
pub open spec fn holds(cfg: OidcConfig, e: RefreshView, g: GrantView, token: Seq<char>, now: u64) -> bool {
    &&& e.refresh_token == token
    &&& e.expires_at as int == now + cfg.refresh_ttl_secs * 1_000_000_000
    &&& e.id_token == g.id_token
    &&& e.subject == g.subject
    &&& forall|s: Seq<char>| #[trigger]
        says(g.claims, "sid"@, ClaimView::Text(s)) ==> e.idp_sid == (if s.len() > 0 {
            Some(s)
        } else {
            None
        })
    &&& (forall|s: Seq<char>| !#[trigger] says(g.claims, "sid"@, ClaimView::Text(s)))
        ==> e.idp_sid is None
}

proof fn lemma_holds(cfg: OidcConfig, g: GrantView, token: Seq<char>, now: u64)
    ensures
        holds(cfg, crate::oidc::login::session_of(cfg, g, token, now), g, token, now),
{
    let e = crate::oidc::login::session_of(cfg, g, token, now);
    assert forall|s: Seq<char>| #[trigger] says(
        g.claims,
        "sid"@,
        ClaimView::Text(s),
    ) implies e.idp_sid == (if s.len() > 0 {
        Some(s)
    } else {
        None
    }) by {
        law_claim_by_its_kind(g.claims, "sid"@, s, 0, 0);
    }
    if let Some(s) = text_claim(g.claims, "sid"@) {
        law_claim_by_its_kind(g.claims, "sid"@, s, 0, 0);
    }
}

/// A login with a valid ID token answers who the user is and where to go, and makes a
/// session where sessions are kept and there is a refresh token. Otherwise nothing changes.
pub proof fn law_login_ends(
    cfg: OidcConfig,
    p: ProviderView,
    return_to: Seq<char>,
    x: ExchangeView,
    sid: Seq<char>,
    now: u64,
    other: Seq<char>,
)
    ensures
        ({
            let r = login_result(cfg, return_to, x, sid);
            let left = login_left(cfg, p, x, sid, now);
            let g = x->Granted_0;
            let kept = x is Granted && cfg.refresh && g.refresh_token is Some;
            &&& x is Failed ==> r == Err::<(IdentityView, Seq<char>, Option<Seq<char>>), _>(
                LoginError::ExchangeFailed,
            )
            &&& x is NoIdToken ==> r == Err::<(IdentityView, Seq<char>, Option<Seq<char>>), _>(
                LoginError::NoIdToken,
            )
            &&& x is InvalidIdToken ==> r == Err::<(IdentityView, Seq<char>, Option<Seq<char>>), _>(
                LoginError::InvalidIdToken,
            )
            &&& x is Granted ==> r == Ok::<_, LoginError>(
                (granted_identity(cfg, g), return_to, if kept {
                    Some(sid)
                } else {
                    None
                }),
            )
            &&& kept ==> left.refreshes.dom().contains(sid) && holds(
                cfg,
                left.refreshes[sid],
                g,
                g.refresh_token->0,
                now,
            )
            &&& kept && other != sid ==> left.refreshes.dom().contains(other)
                == p.refreshes.dom().contains(other) && left.refreshes[other] == p.refreshes[other]
            &&& left == (ProviderView { refreshes: left.refreshes, ..p })
            &&& !kept ==> left == p
        }),
{
    if x is Granted && x->Granted_0.refresh_token is Some {
        lemma_holds(cfg, x->Granted_0, x->Granted_0.refresh_token->0, now);
    }
}

/// A refresh begins with the refresh token of the session, up to the moment at which the
/// session ends. After that the session is gone.
pub proof fn law_refresh_begins(p: ProviderView, sid: Seq<char>, now: u64, other: Seq<char>)
    requires
        p.client is Some,
    ensures
        ({
            let (r, left) = refresh_begun(p, sid, now);
            let known = p.refreshes.dom().contains(sid);
            let over = now > p.refreshes[sid].expires_at;
            &&& !known ==> r == Err::<Seq<char>, _>(RefreshError::UnknownSession) && left == p
            &&& known && over ==> r == Err::<Seq<char>, _>(RefreshError::Expired)
                && !left.refreshes.dom().contains(sid)
            &&& known && !over ==> r == Ok::<_, RefreshError>(p.refreshes[sid].refresh_token)
                && left == p
            &&& other != sid ==> left.refreshes.dom().contains(other)
                == p.refreshes.dom().contains(other) && left.refreshes[other] == p.refreshes[other]
            &&& left == (ProviderView { refreshes: left.refreshes, ..p })
        }),
{
}

/// A refresh with a valid ID token answers who the user is and under which name the session
/// goes on: a new one where the provider gave a new refresh token, and else the old one with
/// the old token. A refresh token that the provider refuses ends the session. Otherwise
/// nothing changes.
pub proof fn law_refresh_ends(
    cfg: OidcConfig,
    p: ProviderView,
    sid: Seq<char>,
    x: ExchangeView,
    new_sid: Seq<char>,
    now: u64,
    other: Seq<char>,
)
    requires
        other != sid,
        other != new_sid,
    ensures
        ({
            let r = refresh_result(cfg, sid, x, new_sid);
            let left = refresh_left(cfg, p, sid, x, new_sid, now);
            let m = left.refreshes;
            let g = x->Granted_0;
            &&& x is Failed ==> r == Err::<(IdentityView, Seq<char>), _>(
                RefreshError::ExchangeFailed,
            ) && !m.dom().contains(sid)
            &&& x is NoIdToken ==> r == Err::<(IdentityView, Seq<char>), _>(RefreshError::NoIdToken)
                && left == p
            &&& x is InvalidIdToken ==> r == Err::<(IdentityView, Seq<char>), _>(
                RefreshError::InvalidIdToken,
            ) && left == p
            &&& x is Granted && g.refresh_token is Some ==> {
                &&& r == Ok::<_, RefreshError>((granted_identity(cfg, g), new_sid))
                &&& m.dom().contains(new_sid)
                &&& holds(cfg, m[new_sid], g, g.refresh_token->0, now)
                &&& sid != new_sid ==> !m.dom().contains(sid)
            }
            &&& x is Granted && g.refresh_token is None ==> {
                &&& r == Ok::<_, RefreshError>((granted_identity(cfg, g), sid))
                &&& m.dom() == p.refreshes.dom()
                &&& p.refreshes.dom().contains(sid) ==> holds(
                    cfg,
                    m[sid],
                    g,
                    p.refreshes[sid].refresh_token,
                    now,
                )
            }
            &&& m.dom().contains(other) == p.refreshes.dom().contains(other) && m[other]
                == p.refreshes[other]
            &&& left == (ProviderView { refreshes: m, ..p })
        }),
{
    if let ExchangeView::Granted(g) = x {
        match g.refresh_token {
            Some(t) => lemma_holds(cfg, g, t, now),
            None => {
                lemma_holds(cfg, g, p.refreshes[sid].refresh_token, now);
                assert(refresh_left(cfg, p, sid, x, new_sid, now).refreshes.dom()
                    =~= p.refreshes.dom());
            },
        }
    }
}

/// A logout takes the session out and hands over its ID token and its refresh token. The
/// other sessions stay.
pub proof fn law_logout_takes_the_session(p: ProviderView, sid: Seq<char>, other: Seq<char>)
    requires
        other != sid,
    ensures
        logout_session(p, sid) == (if p.refreshes.dom().contains(sid) {
            Some((p.refreshes[sid].id_token, p.refreshes[sid].refresh_token))
        } else {
            None
        }),
        !session_dropped(p, sid).refreshes.dom().contains(sid),
        session_dropped(p, sid).refreshes.dom().contains(other) == p.refreshes.dom().contains(other),
        session_dropped(p, sid).refreshes[other] == p.refreshes[other],
        session_dropped(p, sid) == (ProviderView {
            refreshes: session_dropped(p, sid).refreshes,
            ..p
        }),
{
}

/// A refresh token is revoked where that is wanted, the provider is known, and it says where.
pub proof fn law_revocation_is_due(cfg: OidcConfig, p: ProviderView)
    ensures
        revocation_due(cfg, p) <==> cfg.revoke_on_logout && p.client is Some && p.revocation_url
            is Some,
{
}

/// A sweep leaves the logins that are in time, the sessions that last, and the logout tokens
/// whose time is not over, and nothing else.
pub proof fn law_sweep_leaves_what_lasts(p: ProviderView, ttl_secs: u64, now: u64, k: Seq<char>)
    ensures
        ({
            let q = swept(p, ttl_secs, now);
            &&& q.states.dom().contains(k) <==> p.states.dom().contains(k) && now
                <= p.states[k].created + ttl_secs * 1_000_000_000
            &&& q.states.dom().contains(k) ==> q.states[k] == p.states[k]
            &&& q.refreshes.dom().contains(k) <==> p.refreshes.dom().contains(k) && now
                <= p.refreshes[k].expires_at
            &&& q.refreshes.dom().contains(k) ==> q.refreshes[k] == p.refreshes[k]
            &&& q.seen_jtis.dom().contains(k) <==> p.seen_jtis.dom().contains(k) && now
                <= p.seen_jtis[k]
            &&& q.seen_jtis.dom().contains(k) ==> q.seen_jtis[k] == p.seen_jtis[k]
            &&& q == (ProviderView {
                states: q.states,
                refreshes: q.refreshes,
                seen_jtis: q.seen_jtis,
                ..p
            })
        }),
{
}

/// What is counted of revocations and of the user-info endpoint: one for each that was made,
/// under how it went, and nothing else.
pub proof fn law_requests_to_the_provider_are_counted(
    m: Metrics,
    cfg: OidcConfig,
    g: GrantView,
    x: ExchangeView,
)
    ensures
        revocation_counted(m, Revocation::Skipped) == m,
        revocation_counted(m, Revocation::Revoked) == (Metrics {
            oidc_revocations: m.oidc_revocations.wrapping_add(1),
            ..m
        }),
        revocation_counted(m, Revocation::Failed) == (Metrics {
            oidc_revocation_failures: m.oidc_revocation_failures.wrapping_add(1),
            ..m
        }),
        !(x is Granted) ==> exchange_counted(m, cfg, x) == m,
        cfg.userinfo && g.userinfo is Failed ==> exchange_counted(m, cfg, ExchangeView::Granted(g))
            == (Metrics { oidc_userinfo_failures: m.oidc_userinfo_failures.wrapping_add(1), ..m }),
        !cfg.userinfo || !(g.userinfo is Failed) ==> exchange_counted(
            m,
            cfg,
            ExchangeView::Granted(g),
        ) == m,
{
}

/// A provider begins with nothing: no documents, no logins, no sessions, and an empty memory
/// that holds as many tokens as configured, and one at least.
pub proof fn law_provider_begins_empty(size: usize, k: Seq<char>)
    ensures
        ({
            let p = fresh_provider(size);
            &&& p.client is None && p.jwks is None
            &&& p.end_session_url is None && p.revocation_url is None
            &&& !p.states.dom().contains(k)
            &&& !p.refreshes.dom().contains(k)
            &&& !p.seen_jtis.dom().contains(k)
            &&& p.tokens.len() == 0
            &&& size > 0 ==> p.token_cap == size
            &&& size == 0 ==> p.token_cap == 1
        }),
{
}

/// What has expired is swept ten times in the time that a login may take, but not more often
/// than every half minute.
pub proof fn law_sweeps_come_in_time(ttl_secs: u64)
    ensures
        sweep_every(ttl_secs) >= 30_000_000_000,
        ttl_secs <= 300 ==> sweep_every(ttl_secs) == 30_000_000_000,
        ttl_secs >= 300 ==> 10 * sweep_every(ttl_secs) == ttl_secs * 1_000_000_000,
{
}

} // verus!
