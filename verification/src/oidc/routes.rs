//! The sign-on endpoints: what a request to one of them is answered, and what
//! it does to the provider's state.
pub mod cookies;
pub mod laws;
pub mod percent;

use crate::headers::{first_text, get_text, header_values};
use crate::metrics::Metrics;
use crate::oidc::backchannel::logout_pushed;
use crate::oidc::cache::{Identity, IdentityView};
use crate::oidc::hints::{hint_pairs, HintsView, IdpHints};
use crate::oidc::login::{
    login_begun, login_view, secrets_drawn, secrets_fit, LoginError, LoginSecrets, SecretsView,
};
use crate::oidc::routes::cookies::{
    clear_jwt_cookie, clear_refresh_cookie, clear_state_cookie, cookie_of, cookie_value, no_cookie,
    no_state_cookie, refresh_cookie_value, session_cookie, state_cookie, state_cookie_value,
};
use crate::oidc::routes::percent::{
    percent_encode_return, percent_encoded, query_param, query_value,
};
use crate::oidc::session::{logout_session, revocation_due, session_dropped};
use crate::oidc::{slashless, trim_slashes, OidcConfig, OidcProvider, ProviderView};
use crate::reply::{
    found, page, plus_header, response_400, response_503_retry, response_found, response_status,
    unavailable, BodyView, Reply, ReplyBody, ReplyView,
};
use crate::text::{
    chars_of, find_char, lower, parts, same_ignoring_case, same_str, split_on, string_of,
    trim, trimmed, utf8_str, views,
};
use crate::oidc::claims::text_opt;
use vstd::prelude::*;
use vstd::utf8::*;

verus! {

/// The most bytes that a login hint may have.
pub const MAX_HINT_LEN: usize = 256;

/// A login hint that is passed on: it has a character and not too many, and all
/// of them are printable ASCII but no percent sign.
pub open spec fn hint_allowed(s: Seq<char>) -> bool {
    let b = encode_utf8(s);
    &&& 0 < b.len() <= MAX_HINT_LEN
    &&& forall|i: int| 0 <= i < b.len() ==> 0x20 <= #[trigger] b[i] <= 0x7e && b[i] != 0x25
}

/// Checks a login hint.
pub fn validate_hint(value: &str) -> (r: Result<(), ()>)
    ensures
        r is Ok <==> hint_allowed(value@),
{
    let b = value.as_bytes();
    let n: usize = b.len();
    if n == 0 || n > MAX_HINT_LEN {
        return Err(());
    }
    let mut i: usize = 0;
    while i < n
        invariant
            n == b@.len(),
            b@ == encode_utf8(value@),
            i <= n,
            forall|j: int| 0 <= j < i ==> 0x20 <= #[trigger] b@[j] <= 0x7e && b@[j] != 0x25,
        decreases n - i,
    {
        let c: u8 = b[i];
        if c < 0x20 || c > 0x7e || c == 0x25 {
            assert(!(0x20 <= b@[i as int] <= 0x7e && b@[i as int] != 0x25));
            return Err(());
        }
        i = i + 1;
    }
    Ok(())
}

/// A login hint of a query: missing, passed on, or refused.
pub open spec fn hint_ok(query: Seq<char>, name: Seq<char>) -> bool {
    query_value(query, name) matches Some(v) ==> hint_allowed(v)
}

/// The login hints of a query, unless one of them is refused.
pub open spec fn hints_in(query: Seq<char>) -> Option<HintsView> {
    if hint_ok(query, "login_hint"@) && hint_ok(query, "prompt"@) && hint_ok(query, "max_age"@)
        && hint_ok(query, "acr_values"@) && hint_ok(query, "ui_locales"@) {
        Some(
            HintsView {
                login_hint: query_value(query, "login_hint"@),
                prompt: query_value(query, "prompt"@),
                max_age: query_value(query, "max_age"@),
                acr_values: query_value(query, "acr_values"@),
                ui_locales: query_value(query, "ui_locales"@),
            },
        )
    } else {
        None
    }
}

fn read_hint(query: &str, name: &str) -> (r: Result<Option<String>, ()>)
    ensures
        match r {
            Ok(v) => hint_ok(query@, name@) && text_opt(v) == query_value(query@, name@),
            Err(_) => !hint_ok(query@, name@),
        },
{
    match query_param(query, name) {
        Some(v) => match validate_hint(v.as_str()) {
            Ok(_) => Ok(Some(v)),
            Err(_) => Err(()),
        },
        None => Ok(None),
    }
}

/// Reads the login hints of a query. A hint that is there must be one that is
/// passed on.
pub fn build_idp_hints(query: &str) -> (r: Result<IdpHints, ()>)
    ensures
        match r {
            Ok(h) => hints_in(query@) == Some(h@),
            Err(_) => hints_in(query@) is None,
        },
{
    let login_hint = match read_hint(query, "login_hint") {
        Ok(v) => v,
        Err(_) => {
            return Err(());
        },
    };
    let prompt = match read_hint(query, "prompt") {
        Ok(v) => v,
        Err(_) => {
            return Err(());
        },
    };
    let max_age = match read_hint(query, "max_age") {
        Ok(v) => v,
        Err(_) => {
            return Err(());
        },
    };
    let acr_values = match read_hint(query, "acr_values") {
        Ok(v) => v,
        Err(_) => {
            return Err(());
        },
    };
    let ui_locales = match read_hint(query, "ui_locales") {
        Ok(v) => v,
        Err(_) => {
            return Err(());
        },
    };
    Ok(IdpHints { login_hint, prompt, max_age, acr_values, ui_locales })
}

/// Where a browser is sent to log in and come back.
pub open spec fn login_redirect(login_path: Seq<char>, return_to: Seq<char>) -> Seq<char> {
    login_path + "?return="@ + percent_encoded(return_to)
}

/// Writes where a browser is sent to log in and come back.
pub fn build_login_redirect(login_path: &str, return_to: &str) -> (r: String)
    ensures
        r@ == login_redirect(login_path@, return_to@),
{
    let mut v = login_path.to_owned();
    v.append("?return=");
    v.append(percent_encode_return(return_to).as_str());
    v
}

/// A path on this server: it begins with one slash, and neither a slash nor a
/// backslash is the next character.
pub open spec fn is_local_path(s: Seq<char>) -> bool {
    s.len() > 0 && s[0] == '/' && !(s.len() > 1 && (s[1] == '/' || s[1] == '\\'))
}

/// Where a browser goes after a login: the path that was asked for, or the root
/// where that is no path on this server.
pub open spec fn return_target(raw: Seq<char>) -> Seq<char> {
    if is_local_path(raw) {
        raw
    } else {
        "/"@
    }
}

/// Restricts where a browser goes after a login to this server.
pub fn validate_return_to(raw: &str) -> (r: String)
    ensures
        r@ == return_target(raw@),
{
    let cs = chars_of(raw);
    if cs.len() > 0 && cs[0] == '/' && !(cs.len() > 1 && (cs[1] == '/' || cs[1] == '\\')) {
        raw.to_owned()
    } else {
        "/".to_owned()
    }
}

/// How long the cookie of a login lasts, in seconds.
pub const STATE_COOKIE_SECS: u64 = 600;

/// How long to wait before asking a service that is not ready again, in
/// seconds.
pub const RETRY_SECS: u64 = 5;

/// Where a login asks to return to.
pub open spec fn asked_return(query: Seq<char>) -> Seq<char> {
    return_target(
        match query_value(query, "return"@) {
            Some(v) => v,
            None => "/"@,
        },
    )
}

/// What a request to log in is answered with some secrets, and what it leaves.
pub open spec fn login_answer(
    cfg: OidcConfig,
    p: ProviderView,
    query: Seq<char>,
    is_tls: bool,
    s: SecretsView,
    now: u64,
) -> (ReplyView, ProviderView) {
    match hints_in(query) {
        None => (page(400), p),
        Some(h) => {
            let (begun, left) = login_begun(cfg, p, asked_return(query), hint_pairs(h), s, now);
            match begun {
                None => (unavailable(RETRY_SECS), left),
                Some((url, state)) => (
                    plus_header(
                        found(url),
                        "Set-Cookie"@,
                        state_cookie(state, STATE_COOKIE_SECS, is_tls),
                    ),
                    left,
                ),
            }
        },
    }
}

/// Answers a request to log in, with given secrets.
pub fn handle_oidc_login_with(
    oidc: &mut OidcProvider,
    query: &str,
    is_tls: bool,
    secrets: LoginSecrets,
    now: u64,
) -> (r: Reply)
    requires
        secrets_fit(secrets@),
    ensures
        (r@, final(oidc)@) == login_answer(
            old(oidc).cfg,
            old(oidc)@,
            query@,
            is_tls,
            secrets@,
            now,
        ),
        final(oidc).cfg == old(oidc).cfg,
{
    let return_to = match query_param(query, "return") {
        Some(v) => validate_return_to(v.as_str()),
        None => validate_return_to("/"),
    };
    let hints = match build_idp_hints(query) {
        Ok(h) => h,
        Err(_) => {
            return response_400();
        },
    };
    match oidc.begin_login_with(return_to, hints, secrets, now) {
        None => response_503_retry(RETRY_SECS),
        Some((url, state)) => {
            let mut r = response_found(url);
            r.push_header("Set-Cookie", state_cookie_value(state.as_str(), STATE_COOKIE_SECS, is_tls));
            r
        },
    }
}

/// Answers a request to log in.
pub fn handle_oidc_login(oidc: &mut OidcProvider, query: &str, is_tls: bool, now: u64) -> (r: Reply)
    ensures
        exists|s: SecretsView|
            secrets_drawn(s) && (r@, final(oidc)@) == #[trigger] login_answer(
                old(oidc).cfg,
                old(oidc)@,
                query@,
                is_tls,
                s,
                now,
            ),
        final(oidc).cfg == old(oidc).cfg,
{
    let secrets = LoginSecrets::fresh();
    handle_oidc_login_with(oidc, query, is_tls, secrets, now)
}

/// Where a browser goes after a logout: to the provider's logout address, where
/// that is enabled and known, or to the address set up for it.
pub open spec fn logout_redirect(
    cfg: OidcConfig,
    end_session: Option<Seq<char>>,
    hint: Option<Seq<char>>,
) -> Seq<char> {
    match end_session {
        Some(url) if cfg.idp_logout => {
            let sep = if url.contains('?') {
                '&'
            } else {
                '?'
            };
            let back = "post_logout_redirect_uri="@ + percent_encoded(cfg.post_logout_uri@)
                + "&client_id="@ + percent_encoded(cfg.client_id@);
            match hint {
                Some(h) => url.push(sep) + "id_token_hint="@ + percent_encoded(h) + "&"@ + back,
                None => url.push(sep) + back,
            }
        },
        _ => cfg.post_logout_uri@,
    }
}

/// Writes where a browser goes after a logout.
pub fn build_logout_redirect(oidc: &OidcProvider, id_token_hint: Option<&str>) -> (r: String)
    ensures
        r@ == logout_redirect(
            oidc.cfg,
            oidc@.end_session_url,
            match id_token_hint {
                Some(h) => Some(h@),
                None => None,
            },
        ),
{
    if !oidc.idp_logout_enabled() {
        return oidc.post_logout_uri().to_owned();
    }
    let end = match oidc.end_session_url() {
        Some(u) => u,
        None => {
            return oidc.post_logout_uri().to_owned();
        },
    };
    let mut url = end.to_owned();
    let cs = chars_of(end);
    let at: usize = find_char(cs.as_slice(), '?', 0);
    proof {
        crate::text::lemma_find_from(cs@, '?', 0);
        assert((at < cs@.len()) == end@.contains('?'));
    }
    if at < cs.len() {
        url.push('&');
    } else {
        url.push('?');
    }
    let ghost start = url@;
    let mut back = "post_logout_redirect_uri=".to_owned();
    back.append(percent_encode_return(oidc.post_logout_uri()).as_str());
    back.append("&client_id=");
    back.append(percent_encode_return(oidc.client_id()).as_str());
    match id_token_hint {
        Some(h) => {
            url.append("id_token_hint=");
            url.append(percent_encode_return(h).as_str());
            url.append("&");
            url.append(back.as_str());
        },
        None => {
            url.append(back.as_str());
        },
    }
    url
}

/// The session that a logout ends.
pub open spec fn ended_session(
    cfg: OidcConfig,
    p: ProviderView,
    h: Map<Seq<char>, Seq<Seq<u8>>>,
) -> Option<(Seq<char>, Seq<char>)> {
    match cookie_of(h, cfg.refresh_cookie_name@) {
        Some(sid) => logout_session(p, sid),
        None => None,
    }
}

/// What a request to log out is answered.
pub open spec fn logout_answer(
    cfg: OidcConfig,
    p: ProviderView,
    jwt_cookie: Option<Seq<char>>,
    h: Map<Seq<char>, Seq<Seq<u8>>>,
    is_tls: bool,
) -> ReplyView {
    let hint = match ended_session(cfg, p, h) {
        Some((id_token, _)) => Some(id_token),
        None => None,
    };
    let first = found(logout_redirect(cfg, p.end_session_url, hint));
    let second = match jwt_cookie {
        Some(name) => plus_header(first, "Set-Cookie"@, no_cookie(name, is_tls)),
        None => first,
    };
    plus_header(
        plus_header(second, "Set-Cookie"@, no_cookie(cfg.refresh_cookie_name@, is_tls)),
        "Set-Cookie"@,
        no_state_cookie(is_tls),
    )
}

/// What a request to log out leaves.
pub open spec fn logout_left(
    cfg: OidcConfig,
    p: ProviderView,
    h: Map<Seq<char>, Seq<Seq<u8>>>,
) -> ProviderView {
    match cookie_of(h, cfg.refresh_cookie_name@) {
        Some(sid) => session_dropped(p, sid),
        None => p,
    }
}

/// The refresh token that a logout revokes at the provider.
pub open spec fn logout_revokes(
    cfg: OidcConfig,
    p: ProviderView,
    h: Map<Seq<char>, Seq<Seq<u8>>>,
) -> Option<Seq<char>> {
    match ended_session(cfg, p, h) {
        Some((_, token)) if revocation_due(cfg, p) => Some(token),
        _ => None,
    }
}

/// Answers a request to log out: ends the session, takes the cookies away, and
/// sends the browser on. With the answer comes the refresh token that is to be
/// revoked at the provider, if any.
pub fn handle_oidc_logout(
    oidc: &mut OidcProvider,
    jwt_cookie: Option<&str>,
    headers: &hyper::HeaderMap,
    is_tls: bool,
) -> (r: (Reply, Option<String>))
    ensures
        r.0@ == logout_answer(
            old(oidc).cfg,
            old(oidc)@,
            match jwt_cookie {
                Some(n) => Some(n@),
                None => None,
            },
            header_values(*headers),
            is_tls,
        ),
        text_opt(r.1) == logout_revokes(old(oidc).cfg, old(oidc)@, header_values(*headers)),
        final(oidc)@ == logout_left(old(oidc).cfg, old(oidc)@, header_values(*headers)),
        final(oidc).cfg == old(oidc).cfg,
{
    let popped = match cookie_value(headers, oidc.refresh_cookie_name()) {
        Some(sid) => oidc.take_logout_session(sid.as_str()),
        None => None,
    };
    let (location, revoked) = match popped {
        Some((id_token, token)) => (
            build_logout_redirect(oidc, Some(id_token.as_str())),
            oidc.revoke_refresh_token(token),
        ),
        None => (build_logout_redirect(oidc, None), None),
    };
    let mut r = response_found(location);
    match jwt_cookie {
        Some(name) => {
            r.push_header("Set-Cookie", clear_jwt_cookie(name, is_tls));
        },
        None => {},
    }
    r.push_header("Set-Cookie", clear_refresh_cookie(oidc.refresh_cookie_name(), is_tls));
    r.push_header("Set-Cookie", clear_state_cookie(is_tls));
    (r, revoked)
}

/// How the query of a callback names the issuer.
#[derive(Clone, Copy, Debug, PartialEq, Eq, Structural)]
pub enum IssuerCheck {
    Accepted,
    /// It names another one, or none where one is required.
    Mismatch,
}

/// Whether the query of a callback names the issuer as it must.
pub open spec fn issuer_check(cfg: OidcConfig, iss: Option<Seq<char>>) -> IssuerCheck {
    match iss {
        Some(s) => if slashless(s) == slashless(cfg.issuer@) {
            IssuerCheck::Accepted
        } else {
            IssuerCheck::Mismatch
        },
        None => if cfg.require_iss {
            IssuerCheck::Mismatch
        } else {
            IssuerCheck::Accepted
        },
    }
}

/// What a callback carries: the code and the state, where the query has both,
/// names the issuer as it must, and the browser carries the state as a cookie.
pub open spec fn callback_in(
    cfg: OidcConfig,
    h: Map<Seq<char>, Seq<Seq<u8>>>,
    query: Seq<char>,
) -> Option<(Seq<char>, Seq<char>)> {
    match (query_value(query, "code"@), query_value(query, "state"@)) {
        (Some(code), Some(state)) => if issuer_check(cfg, query_value(query, "iss"@))
            == IssuerCheck::Accepted && cookie_of(h, "__hypershunt_oidc_state"@) == Some(state) {
            Some((code, state))
        } else {
            None
        },
        _ => None,
    }
}

/// What the check of a callback adds to the counters.
pub open spec fn callback_counted(m: Metrics, cfg: OidcConfig, query: Seq<char>) -> Metrics {
    if query_value(query, "code"@) is Some && query_value(query, "state"@) is Some && issuer_check(
        cfg,
        query_value(query, "iss"@),
    ) == IssuerCheck::Mismatch {
        Metrics { oidc_callback_iss_mismatches: m.oidc_callback_iss_mismatches.wrapping_add(1), ..m }
    } else {
        m
    }
}

/// Checks a callback: the code and the state that it carries, or the refusal.
pub fn check_callback(
    oidc: &OidcProvider,
    headers: &hyper::HeaderMap,
    query: &str,
    metrics: &mut Metrics,
) -> (r: Result<(String, String), Reply>)
    ensures
        match r {
            Ok((code, state)) => callback_in(oidc.cfg, header_values(*headers), query@) == Some(
                (code@, state@),
            ),
            Err(reply) => reply@ == page(400) && callback_in(
                oidc.cfg,
                header_values(*headers),
                query@,
            ) is None,
        },
        *final(metrics) == callback_counted(*old(metrics), oidc.cfg, query@),
{
    let code = match query_param(query, "code") {
        Some(v) => v,
        None => {
            return Err(response_status(400));
        },
    };
    let state = match query_param(query, "state") {
        Some(v) => v,
        None => {
            return Err(response_status(400));
        },
    };
    let accepted = match query_param(query, "iss") {
        Some(iss) => {
            let given = trim_slashes(iss.as_str());
            let ours = oidc.issuer();
            same_str(given.as_str(), ours.as_str())
        },
        None => !oidc.require_iss(),
    };
    if !accepted {
        metrics.oidc_callback_iss_mismatches = metrics.oidc_callback_iss_mismatches.wrapping_add(1);
        return Err(response_status(400));
    }
    let tied = match cookie_value(headers, "__hypershunt_oidc_state") {
        Some(c) => same_str(c.as_str(), state.as_str()),
        None => false,
    };
    if !tied {
        return Err(response_status(400));
    }
    Ok((code, state))
}

/// The cookie of a signed-in user.
pub enum UserCookie {
    /// This server issues none.
    NotIssued,
    /// It could not be made.
    Failed,
    Issued(String),
}

/// The cookie of a signed-in user, by value.
pub enum UserCookieView {
    NotIssued,
    Failed,
    Issued(Seq<char>),
}

impl View for UserCookie {
    type V = UserCookieView;

    open spec fn view(&self) -> UserCookieView {
        match self {
            UserCookie::NotIssued => UserCookieView::NotIssued,
            UserCookie::Failed => UserCookieView::Failed,
            UserCookie::Issued(c) => UserCookieView::Issued(c@),
        }
    }
}

/// What a callback is answered once its login is finished.
pub open spec fn callback_answer(
    cfg: OidcConfig,
    login: Result<(IdentityView, Seq<char>, Option<Seq<char>>), LoginError>,
    cookie: UserCookieView,
    is_tls: bool,
) -> ReplyView {
    match login {
        Err(_) => page(400),
        Ok((_, return_to, sid)) => match cookie {
            UserCookieView::Issued(c) => {
                let first = plus_header(
                    plus_header(found(return_to), "Set-Cookie"@, c),
                    "Set-Cookie"@,
                    no_state_cookie(is_tls),
                );
                match sid {
                    Some(sid) => plus_header(
                        first,
                        "Set-Cookie"@,
                        session_cookie(
                            cfg.refresh_cookie_name@,
                            sid,
                            cfg.refresh_ttl_secs,
                            is_tls,
                        ),
                    ),
                    None => first,
                }
            },
            _ => page(500),
        },
    }
}

/// Answers a callback whose login is finished.
pub fn handle_oidc_callback(
    oidc: &OidcProvider,
    login: Result<(Identity, String, Option<String>), LoginError>,
    cookie: UserCookie,
    is_tls: bool,
) -> (r: Reply)
    ensures
        r@ == callback_answer(oidc.cfg, login_view(login), cookie@, is_tls),
{
    let (return_to, sid) = match login {
        Err(_) => {
            return response_status(400);
        },
        Ok((_, to, sid)) => (to, sid),
    };
    match cookie {
        UserCookie::Issued(c) => {
            let mut r = response_found(return_to);
            r.push_header("Set-Cookie", c);
            r.push_header("Set-Cookie", clear_state_cookie(is_tls));
            match sid {
                Some(sid) => {
                    r.push_header(
                        "Set-Cookie",
                        refresh_cookie_value(
                            oidc.refresh_cookie_name(),
                            sid.as_str(),
                            oidc.refresh_ttl_secs(),
                            is_tls,
                        ),
                    );
                },
                None => {},
            }
            r
        },
        _ => response_status(500),
    }
}

/// The most bytes that a request with a logout token may carry.
pub const MAX_LOGOUT_BODY: usize = 65536;

/// A request that carries a form.
pub open spec fn is_form(h: Map<Seq<char>, Seq<Seq<u8>>>) -> bool {
    first_text(h, "content-type"@) matches Some(s) && lower(trimmed(parts(s, ';')[0])) == lower(
        "application/x-www-form-urlencoded"@,
    )
}

fn carries_form(headers: &hyper::HeaderMap) -> (r: bool)
    ensures
        r == is_form(header_values(*headers)),
{
    match get_text(headers, "content-type") {
        Some(s) => {
            let cs = chars_of(s.as_str());
            let p = split_on(cs.as_slice(), ';');
            assert(views(p@)[0] == p@[0]@);
            let kind = string_of(trim(p[0]));
            same_ignoring_case(kind.as_str(), "application/x-www-form-urlencoded")
        },
        None => false,
    }
}

/// The logout token that a request carries: a field of a form of bounded size.
pub open spec fn logout_token_in(
    h: Map<Seq<char>, Seq<Seq<u8>>>,
    body: Option<Seq<u8>>,
) -> Option<Seq<char>> {
    match body {
        Some(b) => if is_form(h) && b.len() <= MAX_LOGOUT_BODY && valid_utf8(b) {
            query_value(decode_utf8(b), "logout_token"@)
        } else {
            None
        },
        None => None,
    }
}

/// The answer to a logout token that was accepted.
pub open spec fn logout_done() -> ReplyView {
    ReplyView {
        status: 200,
        headers: seq![("Cache-Control"@, "no-store"@)],
        body: BodyView::Empty,
    }
}

/// What a request with a logout token is answered, and what it leaves.
pub open spec fn backchannel_answer(
    cfg: OidcConfig,
    p: ProviderView,
    token: Option<Seq<char>>,
    now: u64,
    unix_now: u64,
) -> (ReplyView, ProviderView) {
    match token {
        None => (page(400), p),
        Some(t) => {
            let (done, left) = logout_pushed(cfg, p, t, now, unix_now);
            match done {
                Ok(_) => (logout_done(), left),
                Err(_) => (page(400), left),
            }
        },
    }
}

/// What a request with a logout token adds to the counters.
pub open spec fn backchannel_counted(m: Metrics, ok: bool) -> Metrics {
    if ok {
        Metrics { oidc_backchannel_logouts: m.oidc_backchannel_logouts.wrapping_add(1), ..m }
    } else {
        Metrics { oidc_backchannel_failures: m.oidc_backchannel_failures.wrapping_add(1), ..m }
    }
}

fn read_logout_token(headers: &hyper::HeaderMap, body: Option<&[u8]>) -> (r: Option<String>)
    ensures
        text_opt(r) == logout_token_in(
            header_values(*headers),
            match body {
                Some(b) => Some(b@),
                None => None,
            },
        ),
{
    if !carries_form(headers) {
        return None;
    }
    match body {
        Some(b) => {
            if b.len() > MAX_LOGOUT_BODY {
                return None;
            }
            match utf8_str(b) {
                Some(s) => {
                    proof {
                        encode_utf8_decode_utf8(s@);
                    }
                    query_param(s, "logout_token")
                },
                None => None,
            }
        },
        None => None,
    }
}

/// Answers a request with a logout token. The body is missing where it could
/// not be read or was too long.
pub fn handle_oidc_backchannel_logout(
    oidc: &mut OidcProvider,
    headers: &hyper::HeaderMap,
    body: Option<&[u8]>,
    now: u64,
    unix_now: u64,
    metrics: &mut Metrics,
) -> (r: Reply)
    ensures
        (r@, final(oidc)@) == backchannel_answer(
            old(oidc).cfg,
            old(oidc)@,
            logout_token_in(
                header_values(*headers),
                match body {
                    Some(b) => Some(b@),
                    None => None,
                },
            ),
            now,
            unix_now,
        ),
        final(oidc).cfg == old(oidc).cfg,
        *final(metrics) == backchannel_counted(*old(metrics), r@ == logout_done()),
{
    let done = match read_logout_token(headers, body) {
        Some(token) => oidc.apply_backchannel_logout(token.as_str(), now, unix_now).is_ok(),
        None => false,
    };
    if done {
        metrics.oidc_backchannel_logouts = metrics.oidc_backchannel_logouts.wrapping_add(1);
        let mut r = Reply::new(200, ReplyBody::Empty);
        r.push_header("Cache-Control", "no-store".to_owned());
        assert(r@.headers =~= seq![("Cache-Control"@, "no-store"@)]);
        r
    } else {
        metrics.oidc_backchannel_failures = metrics.oidc_backchannel_failures.wrapping_add(1);
        response_status(400)
    }
}

} // verus!
