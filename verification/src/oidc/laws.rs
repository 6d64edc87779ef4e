//! What holds of the provider's state over several steps.
use crate::oidc::backchannel::{
    jti_noted, logout_applied, logout_pushed, sessions_left, targeted, LogoutError, TargetView,
};
use crate::oidc::bearer::{bearer_checked, bearer_validated, token_key};
use crate::oidc::cache::{
    law_cache_returns_what_was_put, lookup, touched, CachedToken, IdentityView,
};
use crate::oidc::discovery::{
    after_look, backoff, next_look, DiscoveryPhase, MAX_BACKOFF_SECS,
};
use crate::oidc::id_token::subject_for;
use crate::oidc::login::{
    exchange_of, login_begun, login_left, login_params, login_result, pending, resource_params,
    session_of, state_expired, state_taken, ExchangeView, GrantView, LoginError, SecretsView,
    TokenReply,
};
use crate::oidc::routes::cookies::cookie_of;
use crate::oidc::routes::{callback_in, is_local_path, return_target};
use crate::oidc::session::{
    logout_session, refresh_begun, refresh_left, refresh_result, session_dropped, swept,
    RefreshError,
};
use crate::oidc::{after, nanos, Discovered, OidcConfig, ProviderView, RefreshView, StateView};
use vstd::prelude::*;

verus! {

/// A login that was begun is found under its state until its time is over.
pub proof fn law_login_is_found(
    cfg: OidcConfig,
    p: ProviderView,
    return_to: Seq<char>,
    hints: Seq<(Seq<char>, Seq<char>)>,
    s: SecretsView,
    now: u64,
    later: u64,
)
    requires
        now <= later <= now + nanos(cfg.state_ttl_secs),
    ensures
        ({
            let (begun, left) = login_begun(cfg, p, return_to, hints, s, now);
            begun matches Some((_, state)) ==> state_taken(
                left,
                cfg.state_ttl_secs,
                state,
                later,
            ).0 == Ok::<_, LoginError>(pending(s, return_to, now))
        }),
{
}

/// A state serves one callback: a second one finds nothing.
pub proof fn law_state_serves_once(
    p: ProviderView,
    ttl_secs: u64,
    state: Seq<char>,
    now: u64,
    later: u64,
)
    requires
        p.client is Some,
    ensures
        state_taken(state_taken(p, ttl_secs, state, now).1, ttl_secs, state, later).0
            == Err::<crate::oidc::StateView, _>(LoginError::UnknownState),
{
}

/// A login that waits too long is refused, and gone.
pub proof fn law_late_login_is_refused(
    p: ProviderView,
    ttl_secs: u64,
    state: Seq<char>,
    now: u64,
)
    requires
        p.client is Some,
        p.states.dom().contains(state),
        now > p.states[state].created + nanos(ttl_secs),
    ensures
        state_taken(p, ttl_secs, state, now).0 == Err::<crate::oidc::StateView, _>(
            LoginError::StateExpired,
        ),
        !state_taken(p, ttl_secs, state, now).1.states.dom().contains(state),
{
}

/// Taking one login leaves every other as it is.
pub proof fn law_other_logins_stay(
    p: ProviderView,
    ttl_secs: u64,
    state: Seq<char>,
    other: Seq<char>,
    now: u64,
)
    requires
        state != other,
    ensures
        ({
            let left = state_taken(p, ttl_secs, state, now).1;
            left.states.dom().contains(other) == p.states.dom().contains(other)
                && left.states[other] == p.states[other]
        }),
{
}

/// Before the provider's documents were read nothing begins, and nothing
/// changes.
pub proof fn law_nothing_before_ready(
    cfg: OidcConfig,
    p: ProviderView,
    return_to: Seq<char>,
    hints: Seq<(Seq<char>, Seq<char>)>,
    s: SecretsView,
    state: Seq<char>,
    now: u64,
)
    requires
        p.client is None,
    ensures
        login_begun(cfg, p, return_to, hints, s, now) == (None::<(Seq<char>, Seq<char>)>, p),
        state_taken(p, cfg.state_ttl_secs, state, now) == (
            Err::<crate::oidc::StateView, _>(LoginError::NotReady),
            p,
        ),
        refresh_begun(p, state, now) == (Err::<Seq<char>, _>(RefreshError::NotReady), p),
{
}

/// A finished login with a refresh token makes a session that can be refreshed
/// until its time is over.
pub proof fn law_session_can_be_refreshed(
    cfg: OidcConfig,
    p: ProviderView,
    g: GrantView,
    sid: Seq<char>,
    now: u64,
    later: u64,
)
    requires
        cfg.refresh,
        p.client is Some,
        g.refresh_token is Some,
        later <= now + nanos(cfg.refresh_ttl_secs),
    ensures
        refresh_begun(login_left(cfg, p, ExchangeView::Granted(g), sid, now), sid, later).0 == Ok::<
            _,
            RefreshError,
        >(g.refresh_token->0),
{
}

/// A new refresh token moves the session to a new name: the old name is gone,
/// every other session stays.
pub proof fn law_rotation_renames_the_session(
    cfg: OidcConfig,
    p: ProviderView,
    sid: Seq<char>,
    g: GrantView,
    new_sid: Seq<char>,
    other: Seq<char>,
    now: u64,
)
    requires
        g.refresh_token is Some,
        sid != new_sid,
        other != sid,
        other != new_sid,
    ensures
        ({
            let m = refresh_left(cfg, p, sid, ExchangeView::Granted(g), new_sid, now).refreshes;
            &&& !m.dom().contains(sid)
            &&& m.dom().contains(new_sid)
            &&& m[new_sid] == session_of(cfg, g, g.refresh_token->0, now)
            &&& m.dom().contains(other) == p.refreshes.dom().contains(other)
            &&& m[other] == p.refreshes[other]
        }),
{
}

/// Without a new refresh token the session keeps its name and its refresh
/// token, and its time begins anew.
pub proof fn law_refresh_slides_the_session(
    cfg: OidcConfig,
    p: ProviderView,
    sid: Seq<char>,
    g: GrantView,
    new_sid: Seq<char>,
    now: u64,
)
    requires
        g.refresh_token is None,
        p.refreshes.dom().contains(sid),
    ensures
        ({
            let m = refresh_left(cfg, p, sid, ExchangeView::Granted(g), new_sid, now).refreshes;
            &&& m.dom() == p.refreshes.dom()
            &&& m[sid].refresh_token == p.refreshes[sid].refresh_token
            &&& m[sid].expires_at == after(now, cfg.refresh_ttl_secs)
        }),
{
    let m = refresh_left(cfg, p, sid, ExchangeView::Granted(g), new_sid, now).refreshes;
    assert(m.dom() =~= p.refreshes.dom());
}

/// A session whose refresh the provider refused is gone for good.
pub proof fn law_refused_session_is_gone(
    cfg: OidcConfig,
    p: ProviderView,
    sid: Seq<char>,
    new_sid: Seq<char>,
    now: u64,
    later: u64,
)
    requires
        p.client is Some,
    ensures
        refresh_begun(
            refresh_left(cfg, p, sid, ExchangeView::Failed, new_sid, now),
            sid,
            later,
        ).0 == Err::<Seq<char>, _>(RefreshError::UnknownSession),
{
}

/// A session is logged out once: a second logout finds nothing, and neither does
/// a refresh.
pub proof fn law_logout_pops(p: ProviderView, sid: Seq<char>, now: u64)
    requires
        p.client is Some,
    ensures
        logout_session(session_dropped(p, sid), sid) is None,
        refresh_begun(session_dropped(p, sid), sid, now).0 == Err::<Seq<char>, _>(
            RefreshError::UnknownSession,
        ),
{
}

/// The id of a logout token is new once, until it is forgotten.
pub proof fn law_jti_is_new_once(
    m: Map<Seq<char>, u128>,
    jti: Seq<char>,
    ttl_secs: u64,
    now: u64,
    later: u64,
)
    requires
        jti_noted(m, jti, ttl_secs, now).0,
        now <= later,
    ensures
        jti_noted(jti_noted(m, jti, ttl_secs, now).1, jti, ttl_secs, later).0 <==> later >= now
            + nanos(ttl_secs),
{
    assert(after(now, ttl_secs) == now + nanos(ttl_secs));
}

/// Noting one id leaves the others that are remembered.
pub proof fn law_other_jtis_stay(
    m: Map<Seq<char>, u128>,
    jti: Seq<char>,
    other: Seq<char>,
    ttl_secs: u64,
    now: u64,
)
    requires
        other != jti,
        m.dom().contains(other),
        m[other] > now,
    ensures
        jti_noted(m, jti, ttl_secs, now).1.dom().contains(other),
        jti_noted(m, jti, ttl_secs, now).1[other] == m[other],
{
}

/// A logout token ends the sessions that it names, and no others.
pub proof fn law_logout_ends_what_it_names(
    m: Map<Seq<char>, RefreshView>,
    t: TargetView,
    sid: Seq<char>,
)
    requires
        m.dom().contains(sid),
    ensures
        sessions_left(m, t).dom().contains(sid) <==> !targeted(t, m[sid]),
        !targeted(t, m[sid]) ==> sessions_left(m, t)[sid] == m[sid],
{
}

/// A logout token that was seen before ends no session.
pub proof fn law_replay_ends_nothing(
    cfg: OidcConfig,
    p: ProviderView,
    t: TargetView,
    jti: Seq<char>,
    now: u64,
)
    requires
        p.seen_jtis.dom().contains(jti),
        p.seen_jtis[jti] > now,
    ensures
        logout_applied(cfg, p, t, jti, now).0 == Err::<int, _>(LogoutError::Replay),
        logout_applied(cfg, p, t, jti, now).1.refreshes == p.refreshes,
{
}

/// A logout token whose keys, signature or claims are refused changes nothing.
pub proof fn law_refused_logout_changes_nothing(
    cfg: OidcConfig,
    p: ProviderView,
    token: Seq<char>,
    now: u64,
    unix_now: u64,
)
    ensures
        ({
            let (r, left) = logout_pushed(cfg, p, token, now, unix_now);
            r matches Err(e) && e != LogoutError::Replay ==> left == p
        }),
{
}

/// A bearer token that was found valid counts, without being checked again,
/// until it expires.
pub proof fn law_valid_bearer_is_remembered(
    cfg: OidcConfig,
    p: ProviderView,
    token: Seq<char>,
    unix_now: u64,
    later: u64,
)
    requires
        lookup(p.tokens, token_key(token)) is None,
        bearer_checked(cfg, p.jwks, token, unix_now) matches Ok((_, exp)) && later < exp,
    ensures
        bearer_validated(cfg, p, token, unix_now).0 is Ok,
        bearer_validated(cfg, bearer_validated(cfg, p, token, unix_now).1, token, later).0
            == bearer_validated(cfg, p, token, unix_now).0,
{
    let (id, exp) = bearer_checked(cfg, p.jwks, token, unix_now)->Ok_0;
    let e: CachedToken = (token_key(token), id.username, id.groups, exp);
    law_cache_returns_what_was_put(p.tokens, p.token_cap, e);
}

/// A remembered bearer token that has expired is checked like an unknown one,
/// and forgotten where it is refused.
pub proof fn law_expired_bearer_is_forgotten(
    cfg: OidcConfig,
    p: ProviderView,
    token: Seq<char>,
    unix_now: u64,
)
    requires
        lookup(p.tokens, token_key(token)) matches Some(e) && e.3 <= unix_now,
        bearer_checked(cfg, p.jwks, token, unix_now) is Err,
    ensures
        bearer_validated(cfg, p, token, unix_now).0 is Err,
        lookup(bearer_validated(cfg, p, token, unix_now).1.tokens, token_key(token)) is None,
{
    let key = token_key(token);
    crate::oidc::cache::lemma_without(touched(p.tokens, key), key);
}

/// A sweep takes nothing whose time is not over, and leaves nothing whose time
/// is over.
pub proof fn law_sweep_is_exact(p: ProviderView, ttl_secs: u64, now: u64, k: Seq<char>)
    ensures
        ({
            let q = swept(p, ttl_secs, now);
            &&& q.states.dom().contains(k) <==> p.states.dom().contains(k) && !state_expired(
                p.states[k].created,
                now,
                ttl_secs,
            )
            &&& q.states.dom().contains(k) ==> q.states[k] == p.states[k]
            &&& q.refreshes.dom().contains(k) <==> p.refreshes.dom().contains(k) && now
                <= p.refreshes[k].expires_at
            &&& q.refreshes.dom().contains(k) ==> q.refreshes[k] == p.refreshes[k]
            &&& q.seen_jtis.dom().contains(k) <==> p.seen_jtis.dom().contains(k) && now
                <= p.seen_jtis[k]
        }),
{
}

/// After a sweep no login is refused for being late, at that moment.
pub proof fn law_swept_logins_are_in_time(
    p: ProviderView,
    ttl_secs: u64,
    now: u64,
    state: Seq<char>,
)
    ensures
        state_taken(swept(p, ttl_secs, now), ttl_secs, state, now).0 != Err::<
            crate::oidc::StateView,
            _,
        >(LoginError::StateExpired),
{
    law_sweep_is_exact(p, ttl_secs, now, state);
}

/// A look that failed leaves what was known.
pub proof fn law_failed_look_keeps_what_is_known(p: ProviderView)
    ensures
        after_look(p, None) == p,
{
}

/// Once the provider's documents were read it stays ready.
pub proof fn law_ready_stays_ready(p: ProviderView, found: Option<Discovered>)
    ensures
        p.client is Some ==> after_look(p, found).client is Some,
        found is Some ==> after_look(p, found).client is Some,
{
}

/// The wait between two first looks is at least a second, at most the limit, and
/// never shrinks.
pub proof fn law_backoff_grows_to_a_limit(a: u32, b: u32)
    requires
        a <= b,
    ensures
        1 <= backoff(a) <= backoff(b) <= MAX_BACKOFF_SECS,
{
    let x = if a < 8 {
        a as nat
    } else {
        8
    };
    let y = if b < 8 {
        b as nat
    } else {
        8
    };
    vstd::arithmetic::power2::lemma_pow2_pos(x);
    if x < y {
        vstd::arithmetic::power2::lemma_pow2_strictly_increases(x, y);
    }
}

/// A reading that has stopped stays stopped.
pub proof fn law_stopped_stays_stopped(ok: bool, retry: bool, refresh_secs: u64)
    ensures
        next_look(DiscoveryPhase::Stopped, ok, retry, refresh_secs) == (
            DiscoveryPhase::Stopped,
            None::<int>,
        ),
{
}

/// Whatever was asked for, the browser stays on this server after a login.
pub proof fn law_return_stays_on_server(raw: Seq<char>)
    ensures
        is_local_path(return_target(raw)),
{
    reveal_strlit("/");
}

/// A callback is taken up only where the browser carries its state as a cookie.
pub proof fn law_callback_needs_its_cookie(
    cfg: OidcConfig,
    h: Map<Seq<char>, Seq<Seq<u8>>>,
    query: Seq<char>,
)
    ensures
        callback_in(cfg, h, query) matches Some((_, state)) ==> cookie_of(
            h,
            "__hypershunt_oidc_state"@,
        ) == Some(state),
{
}

/// The resources that a token is for are named when the login begins as they are
/// when the code is exchanged.
pub proof fn law_resources_on_both_legs(
    resources: Seq<Seq<char>>,
    hints: Seq<(Seq<char>, Seq<char>)>,
)
    ensures
        login_params(resources, hints).take(resources.len() as int) == resource_params(resources),
{
    assert(login_params(resources, hints).take(resources.len() as int) =~= resource_params(
        resources,
    ));
}

/// A login succeeds only where its ID token is valid with the nonce that the login
/// was begun with, and it names the user that the token speaks of: a session that it
/// makes belongs to the token's subject.
pub proof fn law_login_needs_a_valid_token(
    cfg: OidcConfig,
    p: ProviderView,
    login: StateView,
    reply: TokenReply,
    sid: Seq<char>,
    now: u64,
    unix_now: u64,
)
    ensures
        ({
            let x = exchange_of(cfg, p, reply, Some(login.nonce), unix_now);
            let left = login_left(cfg, p, x, sid, now);
            match reply {
                TokenReply::Tokens(t) => {
                    let subject = subject_for(cfg, p, t.id_token@, Some(login.nonce), unix_now);
                    &&& login_result(cfg, login.return_to, x, sid) is Ok <==> subject is Some
                    &&& subject is None ==> left == p && login_result(
                        cfg,
                        login.return_to,
                        x,
                        sid,
                    ) == Err::<(IdentityView, Seq<char>, Option<Seq<char>>), _>(
                        LoginError::InvalidIdToken,
                    )
                    &&& subject is Some && cfg.refresh && t.refresh_token is Some ==> {
                        &&& left.refreshes[sid].subject == subject->0
                        &&& left.refreshes[sid].id_token == t.id_token@
                    }
                },
                _ => login_result(cfg, login.return_to, x, sid) is Err && left == p,
            }
        }),
{
}

/// A refresh succeeds only where its ID token is valid, and otherwise it changes no
/// session but one whose refresh token the provider refused.
pub proof fn law_refresh_needs_a_valid_token(
    cfg: OidcConfig,
    p: ProviderView,
    sid: Seq<char>,
    reply: TokenReply,
    new_sid: Seq<char>,
    now: u64,
    unix_now: u64,
)
    ensures
        ({
            let x = exchange_of(cfg, p, reply, None, unix_now);
            &&& refresh_result(cfg, sid, x, new_sid) is Ok <==> (reply matches TokenReply::Tokens(t)
                && subject_for(cfg, p, t.id_token@, None, unix_now) is Some)
            &&& refresh_result(cfg, sid, x, new_sid) is Err && !(reply is Failed) ==> refresh_left(
                cfg,
                p,
                sid,
                x,
                new_sid,
                now,
            ) == p
        }),
{
}

} // verus!
