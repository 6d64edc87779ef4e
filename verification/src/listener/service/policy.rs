//! What the access policy makes of a request.
use crate::headers::{
    all_values, byte_rows, first_value, get_every, has_header, header_values, text_of, value_text,
};
use crate::listener::dispatch::RouteFacts;
use crate::listener::service::identity::id_opt;
use crate::listener::service::intercept::oidc_facts;
use crate::metrics::Metrics;
use crate::oidc::{OidcConfig, OidcProvider};
use crate::oidc::cache::{Identity, IdentityView};
use crate::oidc::routes::{build_login_redirect, login_redirect};
use crate::oidc::routes::cookies::{is_browser, wants_html};
use crate::text::{
    chars_of, once, parts, same_str, split_on, split_once, string_of, trim_start, trimmed_start,
    views,
};
use vstd::prelude::*;

verus! {

/// Who a request is found to come from.
pub enum Principal {
    Anonymous,
    Authenticated(Identity),
}

/// Who a request is found to come from, by value.
pub open spec fn principal_view(p: Principal) -> Option<IdentityView> {
    match p {
        Principal::Anonymous => None,
        Principal::Authenticated(id) => Some(id@),
    }
}

/// What the policy is told of who a request comes from: what is known already,
/// or nothing, so that the credentials are looked at.
pub fn pre_resolved(known: &Option<Identity>) -> (r: Option<Principal>)
    ensures
        match r {
            Some(p) => p is Authenticated && principal_view(p) == id_opt(*known),
            None => known is None,
        },
{
    match known {
        Some(id) => Some(Principal::Authenticated(id.copy())),
        None => None,
    }
}

/// A cookie header that names a cookie.
pub open spec fn names_cookie(raw: Seq<char>, name: Seq<char>) -> bool {
    let p = parts(raw, ';');
    exists|i: int|
        0 <= i < p.len() && (once(trimmed_start(#[trigger] p[i]), '=') matches Some((k, _)) && k
            == name)
}

/// A value of the cookie header that names a cookie.
pub open spec fn value_names_cookie(v: Seq<u8>, name: Seq<char>) -> bool {
    value_text(v) matches Some(s) && names_cookie(s, name)
}

/// A request that shows credentials: an `Authorization` header, or the cookie
/// of a signed-in user.
pub open spec fn shows_credentials(
    h: Map<Seq<char>, Seq<Seq<u8>>>,
    cookie: Option<Seq<char>>,
) -> bool {
    ||| first_value(h, "authorization"@) is Some
    ||| cookie matches Some(name) && exists|i: int|
        0 <= i < all_values(h, "cookie"@).len() && value_names_cookie(
            #[trigger] all_values(h, "cookie"@)[i],
            name,
        )
}

fn header_names_cookie(raw: &str, name: &str) -> (r: bool)
    ensures
        r == names_cookie(raw@, name@),
{
    let cs = chars_of(raw);
    let p = split_on(cs.as_slice(), ';');
    let n: usize = p.len();
    let mut i: usize = 0;
    while i < n
        invariant
            n == p@.len(),
            i <= n,
            views(p@) == parts(raw@, ';'),
            forall|j: int|
                0 <= j < i ==> !(once(trimmed_start(#[trigger] parts(raw@, ';')[j]), '=') matches Some(
                    (k, _),
                ) && k == name@),
        decreases n - i,
    {
        assert(views(p@)[i as int] == p@[i as int]@);
        match split_once(trim_start(p[i]), '=') {
            Some((k, _)) => {
                if same_str(string_of(k).as_str(), name) {
                    assert(once(trimmed_start(parts(raw@, ';')[i as int]), '=') is Some);
                    return true;
                }
            },
            None => {},
        }
        i = i + 1;
    }
    false
}

/// Whether a request shows credentials.
pub fn presented_credentials(headers: &hyper::HeaderMap, cookie: Option<&str>) -> (r: bool)
    ensures
        r == shows_credentials(
            header_values(*headers),
            match cookie {
                Some(c) => Some(c@),
                None => None,
            },
        ),
{
    if has_header(headers, "authorization") {
        return true;
    }
    let name = match cookie {
        Some(c) => c,
        None => {
            return false;
        },
    };
    let rows = get_every(headers, "cookie");
    let n: usize = rows.len();
    let mut i: usize = 0;
    while i < n
        invariant
            n == rows@.len(),
            i <= n,
            cookie matches Some(c) && c@ == name@,
            byte_rows(rows@) == all_values(header_values(*headers), "cookie"@),
            forall|j: int|
                0 <= j < i ==> !value_names_cookie(
                    #[trigger] all_values(header_values(*headers), "cookie"@)[j],
                    name@,
                ),
        decreases n - i,
    {
        assert(byte_rows(rows@)[i as int] == rows@[i as int]@);
        let hit = match text_of(&rows[i]) {
            Some(s) => header_names_cookie(s.as_str(), name),
            None => false,
        };
        assert(hit == value_names_cookie(
            all_values(header_values(*headers), "cookie"@)[i as int],
            name@,
        ));
        if hit {
            return true;
        }
        i = i + 1;
    }
    false
}

/// What an access policy decides.
pub enum PolicyOutcome {
    Allow,
    Deny(u16),
    Redirect(String, u16),
}

/// What is written to the security log.
#[derive(Clone, Copy, Debug, PartialEq, Eq, Structural)]
pub enum SecurityEvent {
    /// Credentials were shown and refused.
    AuthFailure,
    /// No credentials were shown, and some are asked for.
    AuthChallenge,
    AccessDenied(u16),
}

/// What becomes of a request once the policy has decided.
pub enum Verdict {
    Proceed,
    /// The browser is sent to log in.
    SendToLogin(String),
    /// Credentials are asked for, for a realm.
    AskCredentials(String),
    Deny(u16),
    Redirect(String, u16),
}

/// What becomes of a request, by value.
pub enum VerdictView {
    Proceed,
    SendToLogin(Seq<char>),
    AskCredentials(Seq<char>),
    Deny(u16),
    Redirect(Seq<char>, u16),
}

impl View for Verdict {
    type V = VerdictView;

    open spec fn view(&self) -> VerdictView {
        match self {
            Verdict::Proceed => VerdictView::Proceed,
            Verdict::SendToLogin(s) => VerdictView::SendToLogin(s@),
            Verdict::AskCredentials(s) => VerdictView::AskCredentials(s@),
            Verdict::Deny(c) => VerdictView::Deny(*c),
            Verdict::Redirect(s, c) => VerdictView::Redirect(s@, *c),
        }
    }
}

/// What becomes of a request once the policy has decided. A browser without
/// credentials is sent to log in, where sign-on is ready.
pub open spec fn policy_verdict(
    outcome: PolicyOutcome,
    h: Map<Seq<char>, Seq<Seq<u8>>>,
    oidc: Option<(OidcConfig, bool)>,
    path_and_query: Seq<char>,
    realm: Option<Seq<char>>,
) -> VerdictView {
    match outcome {
        PolicyOutcome::Allow => VerdictView::Proceed,
        PolicyOutcome::Redirect(to, code) => VerdictView::Redirect(to@, code),
        PolicyOutcome::Deny(code) => if code == 401 {
            match oidc {
                Some((cfg, ready)) if ready && is_browser(h) => VerdictView::SendToLogin(
                    login_redirect(cfg.login_path@, path_and_query),
                ),
                _ => VerdictView::AskCredentials(
                    match realm {
                        Some(r) => r,
                        None => "Restricted"@,
                    },
                ),
            }
        } else {
            VerdictView::Deny(code)
        },
    }
}

/// What is written to the security log once the policy has decided.
pub open spec fn policy_event(
    outcome: PolicyOutcome,
    h: Map<Seq<char>, Seq<Seq<u8>>>,
    cookie: Option<Seq<char>>,
) -> Option<SecurityEvent> {
    match outcome {
        PolicyOutcome::Deny(code) => if code == 401 {
            if shows_credentials(h, cookie) {
                Some(SecurityEvent::AuthFailure)
            } else {
                Some(SecurityEvent::AuthChallenge)
            }
        } else {
            Some(SecurityEvent::AccessDenied(code))
        },
        _ => None,
    }
}

/// What the decision of the policy adds to the counters.
pub open spec fn policy_counted(m: Metrics, e: Option<SecurityEvent>) -> Metrics {
    if e == Some(SecurityEvent::AuthFailure) {
        Metrics { auth_failures: m.auth_failures.wrapping_add(1), ..m }
    } else {
        m
    }
}

/// A request that the policy lets proceed.
pub struct Allowed {
    seal: (),
}

/// An optional text, by value.
pub open spec fn str_opt(s: Option<&str>) -> Option<Seq<char>> {
    match s {
        Some(t) => Some(t@),
        None => None,
    }
}

/// Takes up the decision of the policy: what becomes of the request, and what is
/// written to the security log. Only a request that may proceed is handed on.
pub fn settle_policy(
    outcome: PolicyOutcome,
    headers: &hyper::HeaderMap,
    cookie: Option<&str>,
    oidc: Option<&OidcProvider>,
    path_and_query: &str,
    realm: Option<&str>,
    metrics: &mut Metrics,
) -> (r: (Result<Allowed, Verdict>, Option<SecurityEvent>))
    ensures
        match r.0 {
            Ok(_) => outcome is Allow,
            Err(v) => outcome !is Allow && v@ == policy_verdict(
                outcome,
                header_values(*headers),
                oidc_facts(oidc),
                path_and_query@,
                str_opt(realm),
            ),
        },
        r.1 == policy_event(outcome, header_values(*headers), str_opt(cookie)),
        *final(metrics) == policy_counted(*old(metrics), r.1),
{
    match outcome {
        PolicyOutcome::Allow => (Ok(Allowed { seal: () }), None),
        PolicyOutcome::Redirect(to, code) => (Err(Verdict::Redirect(to, code)), None),
        PolicyOutcome::Deny(code) => {
            if code != 401 {
                return (Err(Verdict::Deny(code)), Some(SecurityEvent::AccessDenied(code)));
            }
            let event = if presented_credentials(headers, cookie) {
                metrics.auth_failures = metrics.auth_failures.wrapping_add(1);
                SecurityEvent::AuthFailure
            } else {
                SecurityEvent::AuthChallenge
            };
            match oidc {
                Some(p) => {
                    if p.is_ready() && wants_html(headers) {
                        let to = build_login_redirect(p.login_path(), path_and_query);
                        return (Err(Verdict::SendToLogin(to)), Some(event));
                    }
                },
                None => {},
            }
            let realm = match realm {
                Some(r) => r.to_owned(),
                None => "Restricted".to_owned(),
            };
            (Err(Verdict::AskCredentials(realm)), Some(event))
        },
    }
}

/// A request of a place without a policy may proceed.
pub fn no_policy(place: RouteFacts) -> (r: Allowed)
    requires
        !place.has_policy,
{
    Allowed { seal: () }
}

/// What a look at where an address lies adds to the counters.
pub open spec fn geoip_counted(m: Metrics, found: bool) -> Metrics {
    let m = Metrics { geoip_lookups_total: m.geoip_lookups_total.wrapping_add(1), ..m };
    if found {
        m
    } else {
        Metrics { geoip_lookup_misses_total: m.geoip_lookup_misses_total.wrapping_add(1), ..m }
    }
}

/// Counts a look at where an address lies.
pub fn record_geoip(metrics: &mut Metrics, found: bool)
    ensures
        *final(metrics) == geoip_counted(*old(metrics), found),
{
    metrics.geoip_lookups_total = metrics.geoip_lookups_total.wrapping_add(1);
    if !found {
        metrics.geoip_lookup_misses_total = metrics.geoip_lookup_misses_total.wrapping_add(1);
    }
}

/// Who a request comes from, for the header rules.
pub enum PrincipalStep {
    Known(Principal),
    /// The credentials are to be looked at.
    AskBackend,
}

/// Who a request comes from, for the header rules: what the policy found, and
/// where they need to know and it found nothing, what is known of the request,
/// or else the credentials.
pub fn principal_for_headers(needed: bool, found: Principal, known: &Option<Identity>) -> (r:
    PrincipalStep)
    ensures
        match r {
            PrincipalStep::Known(p) => principal_view(p) == if needed && found is Anonymous {
                id_opt(*known)
            } else {
                principal_view(found)
            },
            PrincipalStep::AskBackend => true,
        },
        r is AskBackend <==> needed && found is Anonymous && known is None,
{
    match found {
        Principal::Authenticated(id) => PrincipalStep::Known(Principal::Authenticated(id)),
        Principal::Anonymous => {
            if !needed {
                return PrincipalStep::Known(Principal::Anonymous);
            }
            match known {
                Some(id) => PrincipalStep::Known(Principal::Authenticated(id.copy())),
                None => PrincipalStep::AskBackend,
            }
        },
    }
}

} // verus!
