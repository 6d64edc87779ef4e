//! What holds of the steps of the pipeline together.
use crate::listener::dispatch::{advanced, run, Event, Phase, Progress};
use crate::listener::service::admission::{answered, one_less, one_more};
use crate::listener::service::answer::{
    compression_counted, routed_answered, token_due, CompressionStats,
};
use crate::listener::service::identity::{
    bearer_resolved, local_identity, refresh_cookies, refresh_due, JwtOutcome,
};
use crate::listener::service::intercept::{
    acme_answer, acme_prefix, intercepted, oidc_route, InterceptView,
};
use crate::listener::service::limits::{first_denial, rule_verdict};
use crate::listener::service::policy::{policy_event, policy_verdict, PolicyOutcome, SecurityEvent};
use crate::metrics::counters::HandlerKind;
use crate::metrics::Metrics;
use crate::oidc::cache::IdentityView;
use crate::oidc::routes::cookies::no_cookie;
use crate::oidc::routes::UserCookieView;
use crate::oidc::session::RefreshError;
use crate::oidc::{OidcConfig, ProviderView};
use crate::rate_limit::{RateLimitRule, RequestContext};
use crate::reply::ReplyView;
use vstd::prelude::*;

verus! {

/// Letting a request in and answering it leaves the number of requests in flight
/// as it was.
pub proof fn law_active_is_balanced(
    a: Metrics,
    b: Metrics,
    status: u16,
    ms: u128,
    path: Seq<char>,
)
    requires
        answered(one_more(a), b, status, ms, path),
    ensures
        b.requests_active == a.requests_active,
        b.requests_total == a.requests_total.wrapping_add(1),
{
    let n = a.requests_active;
    assert(n.wrapping_add(1).wrapping_sub(1) == n);
}

/// What a step of a request does to the number of requests in flight: `a` before
/// and `b` after. Letting it in adds one, answering it or refusing it because
/// sign-on is not ready takes one away, and no other step changes it.
pub open spec fn gauge_moves(p: Phase, e: Event, a: Metrics, b: Metrics) -> bool {
    match (p, e) {
        (Phase::Arrive, Event::LetIn) => b == one_more(a),
        (Phase::Intercept, Event::NotReady) => b == one_less(a),
        (Phase::Count, Event::Counted) => exists|
            status: u16,
            ms: u128,
            path: Seq<char>,
            class: Option<(HandlerKind, Seq<char>)>,
        | #[trigger] routed_answered(a, b, status, ms, path, class),
        _ => b.requests_active == a.requests_active,
    }
}

/// A request that was let in and is not answered yet.
pub open spec fn is_in_flight(p: Phase) -> bool {
    !(p is Arrive) && !(p is Closed)
}

proof fn lemma_answer_takes_one(
    a: Metrics,
    b: Metrics,
    status: u16,
    ms: u128,
    path: Seq<char>,
    class: Option<(HandlerKind, Seq<char>)>,
)
    requires
        routed_answered(a, b, status, ms, path, class),
    ensures
        b.requests_active == a.requests_active.wrapping_sub(1),
{
}

proof fn lemma_gauge_step(s: Progress, e: Event, a: Metrics, b: Metrics)
    requires
        gauge_moves(s.phase, e, a, b),
    ensures
        ({
            let next = advanced(s, e).phase;
            let n = a.requests_active;
            &&& is_in_flight(next) == is_in_flight(s.phase) ==> b.requests_active == n
            &&& is_in_flight(next) && !is_in_flight(s.phase) ==> b.requests_active
                == n.wrapping_add(1)
            &&& !is_in_flight(next) && is_in_flight(s.phase) ==> b.requests_active
                == n.wrapping_sub(1)
        }),
{
    if s.phase is Count && e is Counted {
        let (status, ms, path, class) = choose|
            status: u16,
            ms: u128,
            path: Seq<char>,
            class: Option<(HandlerKind, Seq<char>)>,
        | #[trigger] routed_answered(a, b, status, ms, path, class);
        lemma_answer_takes_one(a, b, status, ms, path, class);
    }
}

/// On every way from its arrival to its end a request leaves the number of
/// requests in flight as it was, and until then it counts as one of them once it
/// was let in.
pub proof fn law_every_course_is_balanced(events: Seq<Event>, m: Seq<Metrics>)
    requires
        m.len() == events.len() + 1,
        forall|i: int|
            0 <= i < events.len() ==> gauge_moves(
                run(events.take(i)).phase,
                #[trigger] events[i],
                m[i],
                m[i + 1],
            ),
    ensures
        !is_in_flight(run(events).phase) ==> m.last().requests_active == m[0].requests_active,
        is_in_flight(run(events).phase) ==> m.last().requests_active
            == m[0].requests_active.wrapping_add(1),
    decreases events.len(),
{
    if events.len() > 0 {
        let before = events.drop_last();
        let n = before.len() as int;
        assert forall|i: int| 0 <= i < before.len() implies gauge_moves(
            run(before.take(i)).phase,
            #[trigger] before[i],
            m.drop_last()[i],
            m.drop_last()[i + 1],
        ) by {
            assert(before.take(i) =~= events.take(i));
            assert(events[i] == before[i]);
        }
        law_every_course_is_balanced(before, m.drop_last());
        assert(events.take(n) =~= before);
        assert(events[n] == events.last());
        lemma_gauge_step(run(before), events[n], m[n], m[n + 1]);
        let g = m[0].requests_active;
        assert(g.wrapping_add(1).wrapping_sub(1) == g);
    }
}

/// A known challenge of a certificate authority is answered whatever else the
/// path would mean.
pub proof fn law_known_challenge_wins(
    path: Seq<char>,
    method: Seq<char>,
    known: Map<Seq<char>, String>,
    health: Option<ReplyView>,
    has_jwt: bool,
    oidc: Option<(OidcConfig, bool)>,
    token: Seq<char>,
)
    requires
        path == acme_prefix() + token,
        known.dom().contains(token),
    ensures
        intercepted(path, method, known, health, has_jwt, oidc) == InterceptView::Acme(
            known[token]@,
        ),
{
    assert(path.take(acme_prefix().len() as int) =~= acme_prefix());
    assert(path.skip(acme_prefix().len() as int) =~= token);
}

/// An unknown challenge is treated like any other path.
pub proof fn law_unknown_challenge_falls_through(
    path: Seq<char>,
    method: Seq<char>,
    known: Map<Seq<char>, String>,
    health: Option<ReplyView>,
    has_jwt: bool,
    oidc: Option<(OidcConfig, bool)>,
)
    requires
        acme_answer(path, known) is None,
    ensures
        intercepted(path, method, known, health, has_jwt, oidc) == intercepted(
            path,
            method,
            Map::empty(),
            health,
            has_jwt,
            oidc,
        ),
{
}

/// Before sign-on is ready none of its endpoints does anything.
pub proof fn law_sign_on_waits_until_ready(cfg: OidcConfig, path: Seq<char>, method: Seq<char>)
    ensures
        ({
            let r = oidc_route(cfg, false, path, method);
            r is NotReady || r is WrongMethod || r is Open
        }),
{
}

/// A session token goes before a client certificate, and both before a bearer
/// token and a refresh.
pub proof fn law_first_identity_wins(
    jwt: JwtOutcome,
    cn: Option<Seq<char>>,
    cfg: OidcConfig,
    p: ProviderView,
    h: Map<Seq<char>, Seq<Seq<u8>>>,
    has_jwt: bool,
    unix_now: u64,
)
    ensures
        jwt matches JwtOutcome::Valid(id) ==> local_identity(jwt, cn) == Some(id@),
        local_identity(jwt, cn) is Some ==> bearer_resolved(
            local_identity(jwt, cn),
            cfg,
            p,
            h,
            unix_now,
        ) == local_identity(jwt, cn),
        bearer_resolved(local_identity(jwt, cn), cfg, p, h, unix_now) is Some ==> refresh_due(
            bearer_resolved(local_identity(jwt, cn), cfg, p, h, unix_now),
            cfg,
            p,
            has_jwt,
            h,
        ) is None,
{
}

/// A refusal is a failure where credentials were shown, and a challenge where
/// none were.
pub proof fn law_refusal_is_failure_or_challenge(
    h: Map<Seq<char>, Seq<Seq<u8>>>,
    cookie: Option<Seq<char>>,
)
    ensures
        policy_event(PolicyOutcome::Deny(401), h, cookie) == Some(
            if crate::listener::service::policy::shows_credentials(h, cookie) {
                SecurityEvent::AuthFailure
            } else {
                SecurityEvent::AuthChallenge
            },
        ),
{
}

/// A client that shows an `Authorization` header is never sent to the login
/// page.
pub proof fn law_api_clients_are_not_redirected(
    outcome: PolicyOutcome,
    h: Map<Seq<char>, Seq<Seq<u8>>>,
    oidc: Option<(OidcConfig, bool)>,
    path_and_query: Seq<char>,
    realm: Option<Seq<char>>,
)
    requires
        crate::headers::first_value(h, "authorization"@) is Some,
    ensures
        !(policy_verdict(outcome, h, oidc, path_and_query, realm) is SendToLogin),
{
}

/// The first rule that denies a request is the one that is named: every rule
/// before it allows the request.
pub proof fn law_first_denial_is_first(
    rules: Seq<RateLimitRule>,
    ctx: RequestContext,
    h: Map<Seq<char>, Seq<Seq<u8>>>,
    now: u64,
    i: int,
)
    requires
        0 <= i <= rules.len(),
    ensures
        ({
            let d = first_denial(rules, ctx, h, now, i);
            &&& i <= d <= rules.len()
            &&& forall|j: int| i <= j < d ==> rule_verdict(#[trigger] rules[j], ctx, h, now) is Allow
            &&& d < rules.len() ==> rule_verdict(rules[d], ctx, h, now) is Deny
        }),
    decreases rules.len() - i,
{
    if i < rules.len() && rule_verdict(rules[i], ctx, h, now) is Allow {
        law_first_denial_is_first(rules, ctx, h, now, i + 1);
    }
}

/// Of the counters for compressed and for skipped answers an answer adds to one
/// at most.
pub proof fn law_compressed_or_skipped(m: Metrics, s: CompressionStats)
    ensures
        compression_counted(m, s).compress_responses_total == m.compress_responses_total
            || compression_counted(m, s).compress_skipped_total == m.compress_skipped_total,
{
}

/// A request never gets two session tokens: where a fresh one is issued after a
/// refresh was tried, the refresh has left none.
pub proof fn law_one_session_token(
    cfg: OidcConfig,
    sid: Seq<char>,
    outcome: Result<(IdentityView, Seq<char>), RefreshError>,
    cookie: UserCookieView,
    is_tls: bool,
    session_mode: Option<bool>,
    found: Option<IdentityView>,
)
    ensures
        token_due(outcome is Ok, session_mode, found) ==> refresh_cookies(
            cfg,
            sid,
            outcome,
            cookie,
            is_tls,
        ) == seq![no_cookie(cfg.refresh_cookie_name@, is_tls)],
{
}

} // verus!
