//! Who a request comes from.
use crate::headers::header_values;
use crate::metrics::Metrics;
use crate::oidc::{OidcConfig, OidcProvider, ProviderView};
use crate::oidc::bearer::bearer_validated;
use crate::oidc::cache::{Identity, IdentityView};
use crate::oidc::claims::{text_opt, texts};
use crate::oidc::routes::{UserCookie, UserCookieView};
use crate::oidc::routes::cookies::{
    bearer_of, clear_refresh_cookie, cookie_of, cookie_value, extract_bearer, no_cookie,
    refresh_cookie_value, session_cookie,
};
use crate::oidc::session::{refresh_view, RefreshError};
use crate::text::same_str;
use vstd::prelude::*;

verus! {

/// What became of the session token of a request.
pub enum JwtOutcome {
    /// There is none of this server's.
    Absent,
    Valid(Identity),
    Invalid,
    Expired,
}

/// An identity, by value.
pub open spec fn id_opt(id: Option<Identity>) -> Option<IdentityView> {
    match id {
        Some(i) => Some(i@),
        None => None,
    }
}

/// Who the session token, or else the client certificate, says that the request
/// comes from. A certificate names a user without groups.
pub open spec fn local_identity(jwt: JwtOutcome, cn: Option<Seq<char>>) -> Option<IdentityView> {
    match jwt {
        JwtOutcome::Valid(id) => Some(id@),
        _ => match cn {
            Some(name) => Some(IdentityView { username: name, groups: Seq::empty() }),
            None => None,
        },
    }
}

/// What the session token of a request adds to the counters.
pub open spec fn jwt_counted(m: Metrics, jwt: JwtOutcome) -> Metrics {
    match jwt {
        JwtOutcome::Invalid => Metrics { jwt_failures: m.jwt_failures.wrapping_add(1), ..m },
        JwtOutcome::Expired => Metrics { jwt_expiries: m.jwt_expiries.wrapping_add(1), ..m },
        _ => m,
    }
}

/// Says who the session token, or else the client certificate, says that the
/// request comes from.
pub fn resolve_local(jwt: JwtOutcome, cn: Option<&str>, metrics: &mut Metrics) -> (r: Option<
    Identity,
>)
    ensures
        id_opt(r) == local_identity(
            jwt,
            match cn {
                Some(s) => Some(s@),
                None => None,
            },
        ),
        *final(metrics) == jwt_counted(*old(metrics), jwt),
{
    match jwt {
        JwtOutcome::Valid(id) => {
            return Some(id);
        },
        JwtOutcome::Invalid => {
            metrics.jwt_failures = metrics.jwt_failures.wrapping_add(1);
        },
        JwtOutcome::Expired => {
            metrics.jwt_expiries = metrics.jwt_expiries.wrapping_add(1);
        },
        JwtOutcome::Absent => {},
    }
    match cn {
        Some(name) => {
            let id = Identity { username: name.to_owned(), groups: Vec::new() };
            assert(id@.groups =~= Seq::empty());
            Some(id)
        },
        None => None,
    }
}

/// The bearer token that is validated: where nothing is known of the request
/// yet, sign-on is ready, and bearer tokens are enabled.
pub open spec fn bearer_due(
    known: Option<IdentityView>,
    cfg: OidcConfig,
    p: ProviderView,
    h: Map<Seq<char>, Seq<Seq<u8>>>,
) -> Option<Seq<char>> {
    if known is None && cfg.bearer && p.client is Some {
        bearer_of(h)
    } else {
        None
    }
}

/// Who a request comes from once its bearer token was looked at.
pub open spec fn bearer_resolved(
    known: Option<IdentityView>,
    cfg: OidcConfig,
    p: ProviderView,
    h: Map<Seq<char>, Seq<Seq<u8>>>,
    unix_now: u64,
) -> Option<IdentityView> {
    match bearer_due(known, cfg, p, h) {
        Some(token) => match bearer_validated(cfg, p, token, unix_now).0 {
            Ok(id) => Some(id),
            Err(_) => None,
        },
        None => known,
    }
}

/// The state of the provider once the bearer token was looked at.
pub open spec fn bearer_left(
    known: Option<IdentityView>,
    cfg: OidcConfig,
    p: ProviderView,
    h: Map<Seq<char>, Seq<Seq<u8>>>,
    unix_now: u64,
) -> ProviderView {
    match bearer_due(known, cfg, p, h) {
        Some(token) => bearer_validated(cfg, p, token, unix_now).1,
        None => p,
    }
}

/// What a look at a bearer token adds to the counters.
pub open spec fn bearer_counted(m: Metrics, looked: bool, ok: bool) -> Metrics {
    if !looked {
        m
    } else if ok {
        Metrics { oidc_bearer_validations: m.oidc_bearer_validations.wrapping_add(1), ..m }
    } else {
        Metrics { oidc_bearer_failures: m.oidc_bearer_failures.wrapping_add(1), ..m }
    }
}

/// Says who a request comes from, by its bearer token where nothing is known
/// yet.
pub fn resolve_bearer(
    known: Option<Identity>,
    oidc: &mut OidcProvider,
    headers: &hyper::HeaderMap,
    unix_now: u64,
    metrics: &mut Metrics,
) -> (r: Option<Identity>)
    ensures
        id_opt(r) == bearer_resolved(
            id_opt(known),
            old(oidc).cfg,
            old(oidc)@,
            header_values(*headers),
            unix_now,
        ),
        final(oidc)@ == bearer_left(
            id_opt(known),
            old(oidc).cfg,
            old(oidc)@,
            header_values(*headers),
            unix_now,
        ),
        final(oidc).cfg == old(oidc).cfg,
        *final(metrics) == bearer_counted(
            *old(metrics),
            bearer_due(id_opt(known), old(oidc).cfg, old(oidc)@, header_values(*headers)) is Some,
            r is Some,
        ),
{
    if known.is_some() || !oidc.bearer_enabled() || !oidc.is_ready() {
        return known;
    }
    match extract_bearer(headers) {
        Some(token) => match oidc.validate_bearer_token(token.as_str(), unix_now) {
            Ok(id) => {
                metrics.oidc_bearer_validations = metrics.oidc_bearer_validations.wrapping_add(1);
                Some(id)
            },
            Err(_) => {
                metrics.oidc_bearer_failures = metrics.oidc_bearer_failures.wrapping_add(1);
                None
            },
        },
        None => known,
    }
}

/// The session that is refreshed for a request: where nothing is known of it
/// yet, sign-on is ready and refreshes sessions, and this server issues session
/// tokens.
pub open spec fn refresh_due(
    known: Option<IdentityView>,
    cfg: OidcConfig,
    p: ProviderView,
    has_jwt: bool,
    h: Map<Seq<char>, Seq<Seq<u8>>>,
) -> Option<Seq<char>> {
    if known is None && p.client is Some && cfg.refresh && has_jwt {
        cookie_of(h, cfg.refresh_cookie_name@)
    } else {
        None
    }
}

/// Says which session is refreshed for a request.
pub fn session_to_refresh(
    known: &Option<Identity>,
    oidc: &OidcProvider,
    has_jwt: bool,
    headers: &hyper::HeaderMap,
) -> (r: Option<String>)
    ensures
        text_opt(r) == refresh_due(
            id_opt(*known),
            oidc.cfg,
            oidc@,
            has_jwt,
            header_values(*headers),
        ),
{
    if known.is_some() || !oidc.is_ready() || !oidc.refresh_enabled() || !has_jwt {
        return None;
    }
    cookie_value(headers, oidc.refresh_cookie_name())
}

/// The cookies that a refresh sets: the one of the signed-in user, and the one
/// of the session where it has a new name; or, where it failed, the one that
/// takes the session away.
pub open spec fn refresh_cookies(
    cfg: OidcConfig,
    sid: Seq<char>,
    outcome: Result<(IdentityView, Seq<char>), RefreshError>,
    cookie: UserCookieView,
    is_tls: bool,
) -> Seq<Seq<char>> {
    match outcome {
        Ok((_, new_sid)) => {
            let first = match cookie {
                UserCookieView::Issued(c) => seq![c],
                _ => Seq::empty(),
            };
            if new_sid != sid {
                first.push(
                    session_cookie(cfg.refresh_cookie_name@, new_sid, cfg.refresh_ttl_secs, is_tls),
                )
            } else {
                first
            }
        },
        Err(_) => seq![no_cookie(cfg.refresh_cookie_name@, is_tls)],
    }
}

/// What a refresh adds to the counters.
pub open spec fn refresh_counted(m: Metrics, ok: bool) -> Metrics {
    if ok {
        Metrics { oidc_refreshes: m.oidc_refreshes.wrapping_add(1), ..m }
    } else {
        Metrics { oidc_refresh_failures: m.oidc_refresh_failures.wrapping_add(1), ..m }
    }
}

/// Takes up a refresh: who the request comes from, and the cookies to set.
pub fn settle_refresh(
    oidc: &OidcProvider,
    sid: &str,
    outcome: Result<(Identity, String), RefreshError>,
    cookie: UserCookie,
    is_tls: bool,
    metrics: &mut Metrics,
) -> (r: (Option<Identity>, Vec<String>))
    ensures
        id_opt(r.0) == match refresh_view(outcome) {
            Ok((id, _)) => Some(id),
            Err(_) => None,
        },
        texts(r.1@) == refresh_cookies(oidc.cfg, sid@, refresh_view(outcome), cookie@, is_tls),
        *final(metrics) == refresh_counted(*old(metrics), outcome is Ok),
{
    let mut out: Vec<String> = Vec::new();
    match outcome {
        Ok((id, new_sid)) => {
            metrics.oidc_refreshes = metrics.oidc_refreshes.wrapping_add(1);
            match cookie {
                UserCookie::Issued(c) => {
                    out.push(c);
                    assert(texts(out@) =~= seq![c@]);
                },
                _ => {
                    assert(texts(out@) =~= Seq::empty());
                },
            }
            let ghost first = texts(out@);
            if !same_str(new_sid.as_str(), sid) {
                let c = refresh_cookie_value(
                    oidc.refresh_cookie_name(),
                    new_sid.as_str(),
                    oidc.refresh_ttl_secs(),
                    is_tls,
                );
                out.push(c);
                assert(texts(out@) =~= first.push(c@));
            }
            (Some(id), out)
        },
        Err(_) => {
            metrics.oidc_refresh_failures = metrics.oidc_refresh_failures.wrapping_add(1);
            let c = clear_refresh_cookie(oidc.refresh_cookie_name(), is_tls);
            out.push(c);
            assert(texts(out@) =~= seq![c@]);
            (None, out)
        },
    }
}

} // verus!
