//! What becomes of a request, in terms of what it brings.
use crate::decimal::read_unsigned;
use crate::headers::{all_values, first_text, first_value, value_text};
use crate::listener::service::admission::{
    answered, length_in, one_less, one_more, path_recorded, too_long,
};
use crate::listener::service::answer::{
    compression_counted, routed_answered, timed_out, token_due, version_name, CompressionStats,
    Encoding, HttpVersion,
};
use crate::listener::service::identity::{
    bearer_counted, bearer_due, bearer_left, bearer_resolved, id_opt, jwt_counted, local_identity,
    refresh_cookies, refresh_counted, refresh_due, JwtOutcome,
};
use crate::listener::service::intercept::{
    acme_answer, acme_page, intercepted, jwks_page, oidc_facts, oidc_route, InterceptView,
};
use crate::listener::service::limits::{
    first_denial, limit_counted, rule_probed, rule_verdict, rules_asked,
};
use crate::listener::service::policy::{
    geoip_counted, names_cookie, policy_counted, policy_event, policy_verdict, principal_view,
    shows_credentials, str_opt, PolicyOutcome, Principal, SecurityEvent, VerdictView,
};
use crate::metrics::counters::HandlerKind;
use crate::metrics::paths::{clipped, with_hit};
use crate::metrics::{class_recorded, recorded, Metrics};
use crate::oidc::bearer::{bearer_validated, BearerError};
use crate::oidc::cache::{Identity, IdentityView};
use crate::oidc::routes::cookies::{bearer_of, cookie_of, is_browser, no_cookie, session_cookie};
use crate::oidc::routes::percent::percent_encoded;
use crate::oidc::routes::UserCookieView;
use crate::oidc::session::RefreshError;
use crate::oidc::{OidcConfig, OidcProvider, ProviderView};
use crate::rate_limit::{key_of, RateLimitRule, RequestContext};
use crate::reply::{BodyView, ReplyView};
use crate::text::laws::{is_blank, law_cut_once, law_trim};
use crate::text::{is_white, lemma_next_white, lower, next_white, once, parts, trimmed_start};
use vstd::prelude::*;

verus! {

/// A request is too long if and only if it announces more bytes than there is a limit for. What
/// cannot be read as a number announces none.
pub proof fn law_announced_length(h: Map<Seq<char>, Seq<Seq<u8>>>, max: u64, s: Seq<char>)
    ensures
        !too_long(h, None),
        first_text(h, "content-length"@) is None ==> !too_long(h, Some(max)) && length_in(h) is None,
        first_text(h, "content-length"@) == Some(s) ==> {
            let n = read_unsigned(s, 0xffff_ffff_ffff_ffff);
            &&& length_in(h) == n
            &&& too_long(h, Some(max)) <==> n is Some && n->0 > max
        },
{
}

/// A request is in flight from when it is let in to when it is answered.
pub proof fn law_requests_in_flight(m: Metrics)
    ensures
        one_more(m) == (Metrics { requests_active: m.requests_active.wrapping_add(1), ..m }),
        one_less(m) == (Metrics { requests_active: m.requests_active.wrapping_sub(1), ..m }),
{
}

/// An answered request is in flight no more, is counted by its status and its time, and adds a
/// hit to its path, in all and in the present period. One that had a place is counted for that
/// too.
pub proof fn law_answers_are_counted(
    a: Metrics,
    b: Metrics,
    status: u16,
    ms: u128,
    path: Seq<char>,
    kind: HandlerKind,
    vhost: Seq<char>,
)
    ensures
        answered(a, b, status, ms, path) ==> {
            &&& b.paths.total@ == with_hit(a.paths.total@, clipped(path))
            &&& b.paths.current@ == with_hit(a.paths.current@, clipped(path))
            &&& b.paths.slots == a.paths.slots && b.paths.head == a.paths.head
            &&& b.requests_active == a.requests_active.wrapping_sub(1)
            &&& b.requests_total == a.requests_total.wrapping_add(1)
            &&& recorded(
                Metrics { requests_active: a.requests_active.wrapping_sub(1), ..a },
                Metrics { paths: a.paths, ..b },
                status,
                ms,
            )
        },
        routed_answered(a, b, status, ms, path, None) <==> answered(a, b, status, ms, path),
        routed_answered(a, b, status, ms, path, Some((kind, vhost))) <==> exists|m: Metrics|
            answered(a, m, status, ms, path) && #[trigger] class_recorded(m, b, kind, vhost, status),
{
    if answered(a, b, status, ms, path) {
        let m = choose|m: Metrics| #[trigger]
            recorded(one_less(a), m, status, ms) && path_recorded(m, b, path);
        assert(m.paths == a.paths);
        assert((Metrics { paths: a.paths, ..b }) == m);
    }
    if routed_answered(a, b, status, ms, path, Some((kind, vhost))) {
        let m = choose|m: Metrics| #[trigger]
            answered(a, m, status, ms, path) && class_recorded(m, b, kind, vhost, status);
        assert(class_recorded(m, b, kind, vhost, status));
    }
    if exists|m: Metrics|
        answered(a, m, status, ms, path) && #[trigger] class_recorded(m, b, kind, vhost, status) {
        let m = choose|m: Metrics|
            answered(a, m, status, ms, path) && #[trigger] class_recorded(m, b, kind, vhost, status);
        assert(answered(a, m, status, ms, path));
    }
}

/// The answers and names that are fixed.
pub proof fn law_fixed_answers(body: Seq<char>)
    ensures
        timed_out().status == 408 && timed_out().headers.len() == 0,
        timed_out().body == BodyView::Text("<h1>408 Request Timeout</h1>"@),
        acme_page(body).status == 200 && acme_page(body).body == BodyView::Text(body),
        acme_page(body).headers == seq![("Content-Type"@, "text/plain"@)],
        jwks_page(body).status == 200 && jwks_page(body).body == BodyView::Text(body),
        jwks_page(body).headers == seq![
            ("Content-Type"@, "application/json"@),
            ("Cache-Control"@, "public, max-age=3600"@),
        ],
        version_name(HttpVersion::Http09) == "HTTP/0.9"@,
        version_name(HttpVersion::Http10) == "HTTP/1.0"@,
        version_name(HttpVersion::Http11) == "HTTP/1.1"@,
        version_name(HttpVersion::Http2) == "HTTP/2.0"@,
        version_name(HttpVersion::Http3) == "HTTP/3.0"@,
        version_name(HttpVersion::Other) == "HTTP/1.1"@,
{
}

/// A session token is issued to a user who was found at this request, where users get one.
pub proof fn law_fresh_token(known: bool, mode: Option<bool>, found: Option<IdentityView>)
    ensures
        token_due(known, mode, found) <==> !known && mode is Some && mode->0 && found is Some,
{
}

/// What is counted of compression: each answer by how it was compressed, with its bytes before
/// and after, and each that was left alone where it could have been compressed.
pub proof fn law_compression_is_counted(m: Metrics, s: CompressionStats)
    ensures
        ({
            let c = compression_counted(m, s);
            &&& s.applied is None && !s.skipped ==> c == m
            &&& s.applied is None && s.skipped ==> c == (Metrics {
                compress_skipped_total: m.compress_skipped_total.wrapping_add(1),
                ..m
            })
            &&& s.applied is Some ==> {
                &&& c.compress_responses_total == m.compress_responses_total.wrapping_add(1)
                &&& c.compress_bytes_in_total == m.compress_bytes_in_total.wrapping_add(s.bytes_in)
                &&& c.compress_bytes_out_total == m.compress_bytes_out_total.wrapping_add(
                    s.bytes_out,
                )
                &&& c.compress_gzip_total == if s.applied == Some(Encoding::Gzip) {
                    m.compress_gzip_total.wrapping_add(1)
                } else {
                    m.compress_gzip_total
                }
                &&& c.compress_brotli_total == if s.applied == Some(Encoding::Brotli) {
                    m.compress_brotli_total.wrapping_add(1)
                } else {
                    m.compress_brotli_total
                }
                &&& c.compress_zstd_total == if s.applied == Some(Encoding::Zstd) {
                    m.compress_zstd_total.wrapping_add(1)
                } else {
                    m.compress_zstd_total
                }
                &&& c == (Metrics {
                    compress_responses_total: c.compress_responses_total,
                    compress_bytes_in_total: c.compress_bytes_in_total,
                    compress_bytes_out_total: c.compress_bytes_out_total,
                    compress_gzip_total: c.compress_gzip_total,
                    compress_brotli_total: c.compress_brotli_total,
                    compress_zstd_total: c.compress_zstd_total,
                    ..m
                })
            }
        }),
{
}

/// Who a request comes from without asking the provider: the user of a valid session token, or
/// else the one whom the client certificate names, who is in no groups. Bad tokens are counted
/// by what is wrong with them.
pub proof fn law_own_identity(id: Identity, cn: Seq<char>, jwt: JwtOutcome, m: Metrics)
    ensures
        local_identity(JwtOutcome::Valid(id), None) == Some(id@),
        local_identity(JwtOutcome::Valid(id), Some(cn)) == Some(id@),
        !(jwt is Valid) ==> local_identity(jwt, None) is None,
        !(jwt is Valid) ==> local_identity(jwt, Some(cn)) is Some && local_identity(
            jwt,
            Some(cn),
        )->0.username == cn && local_identity(jwt, Some(cn))->0.groups.len() == 0,
        jwt_counted(m, JwtOutcome::Invalid) == (Metrics {
            jwt_failures: m.jwt_failures.wrapping_add(1),
            ..m
        }),
        jwt_counted(m, JwtOutcome::Expired) == (Metrics {
            jwt_expiries: m.jwt_expiries.wrapping_add(1),
            ..m
        }),
        jwt is Valid || jwt is Absent ==> jwt_counted(m, jwt) == m,
{
}

/// A bearer token is looked at only where nobody is known yet, that is configured, and the
/// provider is known. Its user is who the request comes from, and nobody where it is refused.
pub proof fn law_bearer_of_a_stranger(
    known: IdentityView,
    cfg: OidcConfig,
    p: ProviderView,
    h: Map<Seq<char>, Seq<Seq<u8>>>,
    unix_now: u64,
    token: Seq<char>,
    id: IdentityView,
    e: BearerError,
    m: Metrics,
)
    ensures
        bearer_due(Some(known), cfg, p, h) is None,
        bearer_resolved(Some(known), cfg, p, h, unix_now) == Some(known),
        bearer_left(Some(known), cfg, p, h, unix_now) == p,
        !cfg.bearer || p.client is None || bearer_of(h) is None ==> bearer_due(None, cfg, p, h)
            is None && bearer_resolved(None, cfg, p, h, unix_now) is None && bearer_left(
            None,
            cfg,
            p,
            h,
            unix_now,
        ) == p,
        cfg.bearer && p.client is Some && bearer_of(h) == Some(token) ==> {
            let (got, left) = bearer_validated(cfg, p, token, unix_now);
            &&& bearer_due(None, cfg, p, h) == Some(token)
            &&& bearer_left(None, cfg, p, h, unix_now) == left
            &&& got == Ok::<_, BearerError>(id) ==> bearer_resolved(None, cfg, p, h, unix_now)
                == Some(id)
            &&& got == Err::<IdentityView, _>(e) ==> bearer_resolved(None, cfg, p, h, unix_now)
                is None
        },
        bearer_counted(m, false, true) == m && bearer_counted(m, false, false) == m,
        bearer_counted(m, true, true) == (Metrics {
            oidc_bearer_validations: m.oidc_bearer_validations.wrapping_add(1),
            ..m
        }),
        bearer_counted(m, true, false) == (Metrics {
            oidc_bearer_failures: m.oidc_bearer_failures.wrapping_add(1),
            ..m
        }),
{
}

/// A session is refreshed where nobody is known yet, sessions are refreshed and tokens issued,
/// and the provider is known: the one of the cookie.
pub proof fn law_session_of_a_stranger(
    known: Option<IdentityView>,
    cfg: OidcConfig,
    p: ProviderView,
    has_jwt: bool,
    h: Map<Seq<char>, Seq<Seq<u8>>>,
    m: Metrics,
)
    ensures
        known is None && cfg.refresh && has_jwt && p.client is Some ==> refresh_due(
            known,
            cfg,
            p,
            has_jwt,
            h,
        ) == cookie_of(h, cfg.refresh_cookie_name@),
        known is Some || !cfg.refresh || !has_jwt || p.client is None ==> refresh_due(
            known,
            cfg,
            p,
            has_jwt,
            h,
        ) is None,
        refresh_counted(m, true) == (Metrics {
            oidc_refreshes: m.oidc_refreshes.wrapping_add(1),
            ..m
        }),
        refresh_counted(m, false) == (Metrics {
            oidc_refresh_failures: m.oidc_refresh_failures.wrapping_add(1),
            ..m
        }),
{
}

/// Behind a refresh the browser gets the cookie of the user where one was issued, and that of
/// the session where its name has changed. A failed refresh takes the session's cookie away.
pub proof fn law_cookies_of_a_refresh(
    cfg: OidcConfig,
    sid: Seq<char>,
    other: Seq<char>,
    id: IdentityView,
    user: Seq<char>,
    cookie: UserCookieView,
    is_tls: bool,
    e: RefreshError,
)
    requires
        other != sid,
        !(cookie is Issued),
    ensures
        ({
            let name = cfg.refresh_cookie_name@;
            let session = session_cookie(name, other, cfg.refresh_ttl_secs, is_tls);
            let issued = UserCookieView::Issued(user);
            &&& refresh_cookies(cfg, sid, Err(e), cookie, is_tls) == seq![no_cookie(name, is_tls)]
            &&& refresh_cookies(cfg, sid, Err(e), issued, is_tls) == seq![no_cookie(name, is_tls)]
            &&& refresh_cookies(cfg, sid, Ok((id, sid)), issued, is_tls) == seq![user]
            &&& refresh_cookies(cfg, sid, Ok((id, other)), issued, is_tls) == seq![user, session]
            &&& refresh_cookies(cfg, sid, Ok((id, sid)), cookie, is_tls).len() == 0
            &&& refresh_cookies(cfg, sid, Ok((id, other)), cookie, is_tls) == seq![session]
        }),
{
}

/// A challenge is answered where its token is known, under the well-known path; then comes the
/// health check, then the document with the key, and sign-on last.
pub proof fn law_own_paths(
    path: Seq<char>,
    method: Seq<char>,
    known: Map<Seq<char>, String>,
    token: Seq<char>,
    health: Option<ReplyView>,
    r: ReplyView,
    cfg: OidcConfig,
    ready: bool,
    has_jwt: bool,
)
    ensures
        ({
            let p = "/.well-known/acme-challenge/"@ + token;
            &&& known.dom().contains(token) ==> acme_answer(p, known) == Some(known[token]@)
            &&& !known.dom().contains(token) ==> acme_answer(p, known) is None
        }),
        (forall|t: Seq<char>| path != #[trigger] ("/.well-known/acme-challenge/"@ + t))
            ==> acme_answer(path, known) is None,
        acme_answer(path, known) matches Some(body) ==> intercepted(
            path,
            method,
            known,
            health,
            has_jwt,
            Some((cfg, ready)),
        ) == InterceptView::Acme(body),
        acme_answer(path, known) is None ==> {
            let own = has_jwt && path == "/.well-known/jwks.json"@;
            &&& intercepted(path, method, known, Some(r), has_jwt, Some((cfg, ready)))
                == InterceptView::Health(r)
            &&& intercepted(path, method, known, Some(r), has_jwt, None) == InterceptView::Health(r)
            &&& own ==> intercepted(path, method, known, None, has_jwt, Some((cfg, ready))) is Jwks
                && intercepted(path, method, known, None, has_jwt, None) is Jwks
            &&& !own ==> intercepted(path, method, known, None, has_jwt, Some((cfg, ready)))
                == oidc_route(cfg, ready, path, method) && intercepted(
                path,
                method,
                known,
                None,
                has_jwt,
                None,
            ) is Open
        },
{
    let pre = "/.well-known/acme-challenge/"@;
    let p = pre + token;
    assert(p.take(pre.len() as int) =~= pre);
    assert(p.skip(pre.len() as int) =~= token);
    if acme_answer(path, known) is Some {
        assert(path =~= pre + path.skip(pre.len() as int));
    }
}

/// The paths of sign-on: login, callback, the logout of the provider and that of the user. Each
/// waits for the provider to be known, and the provider's has to be a POST.
pub proof fn law_paths_of_sign_on(
    cfg: OidcConfig,
    ready: bool,
    path: Seq<char>,
    method: Seq<char>,
)
    ensures
        ({
            let r = oidc_route(cfg, ready, path, method);
            let login = path == cfg.login_path@;
            let back = path == cfg.callback_path@ && !login;
            let pushed = path == cfg.backchannel_logout_path@ && cfg.backchannel_logout_enabled
                && !login && !back;
            let logout = path == cfg.logout_path@ && !login && !back && !pushed;
            &&& r is Login <==> login && ready
            &&& r is Callback <==> back && ready
            &&& r is WrongMethod <==> pushed && method != "POST"@
            &&& r is Backchannel <==> pushed && method == "POST"@ && ready
            &&& r is Logout <==> logout && ready
            &&& r is NotReady <==> !ready && (login || back || logout || pushed && method == "POST"@)
            &&& r is Open <==> !login && !back && !pushed && !logout
        }),
{
}

/// A request is stopped by the first rule that denies it. The rules up to that one have counted
/// the request, and those behind it have not.
pub proof fn law_rules_are_asked_in_turn(
    before: Seq<RateLimitRule>,
    after: Seq<RateLimitRule>,
    ctx: RequestContext,
    h: Map<Seq<char>, Seq<Seq<u8>>>,
    now: u64,
    j: int,
    m: Metrics,
)
    requires
        rules_asked(before, after, ctx, h, now),
        0 <= j < before.len(),
    ensures
        after.len() == before.len(),
        ({
            let r = before[j];
            let k = key_of(r.key, ctx, h);
            let b = r.limit.bucket_of(r.state@, k, now);
            let spared = exists|i: int| 0 <= i < j && rule_verdict(#[trigger] before[i], ctx, h, now)
                is Deny;
            &&& rule_verdict(r, ctx, h, now) == r.limit.verdict(b, now)
            &&& rule_probed(r, ctx, h, now) == r.state@.insert(k, r.limit.probed(b, now))
            &&& spared ==> after[j] == r
            &&& !spared ==> after[j].state@ == rule_probed(r, ctx, h, now) && after[j].limit == r.limit
                && after[j].key == r.key && after[j].name == r.name
        }),
        limit_counted(m, true) == (Metrics {
            rate_limit_triggers: m.rate_limit_triggers.wrapping_add(1),
            ..m
        }),
        limit_counted(m, false) == m,
{
    let d = first_denial(before, ctx, h, now, 0);
    lemma_denial(before, ctx, h, now, 0);
    assert(j <= d ==> after[j].state@ == rule_probed(before[j], ctx, h, now));
    if j > d {
        assert(rule_verdict(before[d], ctx, h, now) is Deny);
        assert(after[j] == before[j]);
    }
}

proof fn lemma_denial(
    rules: Seq<RateLimitRule>,
    ctx: RequestContext,
    h: Map<Seq<char>, Seq<Seq<u8>>>,
    now: u64,
    i: int,
)
    requires
        0 <= i <= rules.len(),
    ensures
        ({
            let d = first_denial(rules, ctx, h, now, i);
            &&& i <= d <= rules.len()
            &&& forall|j: int|
                i <= j < d ==> !(rule_verdict(#[trigger] rules[j], ctx, h, now) is Deny)
            &&& d < rules.len() ==> rule_verdict(rules[d], ctx, h, now) is Deny
        }),
    decreases rules.len() - i,
{
    if i < rules.len() {
        if !(rule_verdict(rules[i], ctx, h, now) is Deny) {
            lemma_denial(rules, ctx, h, now, i + 1);
        }
    }
}

/// The first rule that denies a request has none in front of it that does.
pub proof fn law_first_to_deny(
    rules: Seq<RateLimitRule>,
    ctx: RequestContext,
    h: Map<Seq<char>, Seq<Seq<u8>>>,
    now: u64,
    d: int,
)
    requires
        0 <= d <= rules.len(),
        forall|i: int| 0 <= i < d ==> rule_verdict(#[trigger] rules[i], ctx, h, now) is Allow,
        d < rules.len() ==> rule_verdict(rules[d], ctx, h, now) is Deny,
    ensures
        first_denial(rules, ctx, h, now, 0) == d,
{
    lemma_denial(rules, ctx, h, now, 0);
    let f = first_denial(rules, ctx, h, now, 0);
    if f < d {
        assert(rule_verdict(rules[f], ctx, h, now) is Allow);
    }
    if d < f {
        assert(!(rule_verdict(rules[d], ctx, h, now) is Deny));
    }
}

/// A cookie header names a cookie in what stands between its semicolons: the name without the
/// white space in front, up to an equals sign.
pub proof fn law_cookie_is_named(raw: Seq<char>, i: int, blank: Seq<char>, name: Seq<char>, v: Seq<char>)
    requires
        0 <= i < parts(raw, ';').len(),
        parts(raw, ';')[i] == blank + (name.push('=') + v),
        is_blank(blank),
        name.len() > 0,
        !is_white(name[0]),
        !name.contains('='),
    ensures
        names_cookie(raw, name),
{
    let t = name.push('=') + v;
    lemma_skip_blank(blank, t);
    law_cut_once(name, '=', v);
    assert(once(trimmed_start(parts(raw, ';')[i]), '=') == Some((name, v)));
}

/// White space in front of a text is skipped.
proof fn lemma_skip_blank(blank: Seq<char>, t: Seq<char>)
    requires
        is_blank(blank),
        t.len() > 0,
        !is_white(t[0]),
    ensures
        trimmed_start(blank + t) == t,
{
    law_trim(blank, seq![t[0]], Seq::empty());
    lemma_next_white(blank + t, 0, false);
    let n = next_white(blank + t, 0, false);
    if n < blank.len() {
        assert((blank + t)[n] == blank[n]);
    }
    if n > blank.len() {
        assert((blank + t)[blank.len() as int] == t[0]);
    }
    assert((blank + t).skip(blank.len() as int) =~= t);
}

/// A request shows credentials by an authorization header, or by the named cookie in one of its
/// cookie headers.
pub proof fn law_shown_credentials(
    h: Map<Seq<char>, Seq<Seq<u8>>>,
    name: Seq<char>,
    key: Seq<char>,
)
    ensures
        first_value(h, "authorization"@) is Some ==> shows_credentials(h, Some(name))
            && shows_credentials(h, None),
        first_value(h, "authorization"@) is None ==> !shows_credentials(h, None),
        first_value(h, "authorization"@) is None ==> (shows_credentials(h, Some(name)) <==> exists|
            i: int,
        |
            0 <= i < all_values(h, "cookie"@).len() && (value_text(
                #[trigger] all_values(h, "cookie"@)[i],
            ) matches Some(s) && names_cookie(s, name))),
        h.dom().contains(lower(key)) ==> all_values(h, key) == h[lower(key)],
        !h.dom().contains(lower(key)) ==> all_values(h, key).len() == 0,
{
}

/// A cookie that is named in none of the parts of a header is not named.
pub proof fn law_cookie_is_not_named(raw: Seq<char>, name: Seq<char>)
    requires
        forall|i: int| #![trigger parts(raw, ';')[i]]
            0 <= i < parts(raw, ';').len() ==> once(trimmed_start(parts(raw, ';')[i]), '=') is None
                || once(trimmed_start(parts(raw, ';')[i]), '=')->Some_0.0 != name,
    ensures
        !names_cookie(raw, name),
{
}

/// What a decision of the policy comes to: a browser without credentials is sent to log in where
/// sign-on is ready, anyone else is asked for them, and all other decisions stand.
pub proof fn law_policy_decisions(
    code: u16,
    to: String,
    h: Map<Seq<char>, Seq<Seq<u8>>>,
    cfg: OidcConfig,
    ready: bool,
    asked: Seq<char>,
    realm: Seq<char>,
    oidc: Option<(OidcConfig, bool)>,
    named: Option<Seq<char>>,
)
    ensures
        policy_verdict(PolicyOutcome::Allow, h, oidc, asked, named) is Proceed,
        policy_verdict(PolicyOutcome::Redirect(to, code), h, oidc, asked, named)
            == VerdictView::Redirect(to@, code),
        code != 401 ==> policy_verdict(PolicyOutcome::Deny(code), h, oidc, asked, named)
            == VerdictView::Deny(code),
        ready && is_browser(h) ==> policy_verdict(
            PolicyOutcome::Deny(401),
            h,
            Some((cfg, ready)),
            asked,
            named,
        ) == VerdictView::SendToLogin(cfg.login_path@ + "?return="@ + percent_encoded(asked)),
        oidc is None || !(oidc->Some_0.1) || !is_browser(h) ==> policy_verdict(
            PolicyOutcome::Deny(401),
            h,
            oidc,
            asked,
            Some(realm),
        ) == VerdictView::AskCredentials(realm) && policy_verdict(
            PolicyOutcome::Deny(401),
            h,
            oidc,
            asked,
            None,
        ) == VerdictView::AskCredentials("Restricted"@),
{
}

/// What the log says of a decision: a refusal with 401 is a failure where credentials were shown
/// and a challenge otherwise, and a refusal with another code is told with that. Failures alone
/// are counted.
pub proof fn law_policy_events(
    code: u16,
    to: String,
    h: Map<Seq<char>, Seq<Seq<u8>>>,
    cookie: Option<Seq<char>>,
    m: Metrics,
)
    ensures
        policy_event(PolicyOutcome::Allow, h, cookie) is None,
        policy_event(PolicyOutcome::Redirect(to, code), h, cookie) is None,
        code != 401 ==> policy_event(PolicyOutcome::Deny(code), h, cookie) == Some(
            SecurityEvent::AccessDenied(code),
        ),
        shows_credentials(h, cookie) ==> policy_event(PolicyOutcome::Deny(401), h, cookie) == Some(
            SecurityEvent::AuthFailure,
        ),
        !shows_credentials(h, cookie) ==> policy_event(PolicyOutcome::Deny(401), h, cookie) == Some(
            SecurityEvent::AuthChallenge,
        ),
        policy_counted(m, Some(SecurityEvent::AuthFailure)) == (Metrics {
            auth_failures: m.auth_failures.wrapping_add(1),
            ..m
        }),
        policy_counted(m, Some(SecurityEvent::AuthChallenge)) == m,
        policy_counted(m, Some(SecurityEvent::AccessDenied(code))) == m,
        policy_counted(m, None) == m,
        geoip_counted(m, true) == (Metrics {
            geoip_lookups_total: m.geoip_lookups_total.wrapping_add(1),
            ..m
        }),
        geoip_counted(m, false) == (Metrics {
            geoip_lookups_total: m.geoip_lookups_total.wrapping_add(1),
            geoip_lookup_misses_total: m.geoip_lookup_misses_total.wrapping_add(1),
            ..m
        }),
{
}

/// Who a request comes from, by value, and whether sign-on is ready.
pub proof fn law_principals_by_value(id: Identity, p: &OidcProvider, s: &str)
    ensures
        id_opt(Some(id)) == Some(id@) && id_opt(None) is None,
        principal_view(Principal::Authenticated(id)) == Some(id@),
        principal_view(Principal::Anonymous) is None,
        oidc_facts(Some(p)) == Some((p.cfg, p.client is Some)),
        oidc_facts(None) is None,
        str_opt(Some(s)) == Some(s@) && str_opt(None) is None,
{
}

} // verus!
