//! What the browser and the provider are answered, in terms of what they sent.
use crate::decimal::decimal;
use crate::headers::{first_text, first_value};
use crate::metrics::Metrics;
use crate::oidc::backchannel::logout_pushed;
use crate::oidc::cache::IdentityView;
use crate::oidc::discovery::{
    after_look, backoff, look_counted, next_look, DiscoveryPhase,
};
use crate::oidc::hints::{hint_pairs, no_hints, HintsView};
use crate::oidc::login::{login_begun, LoginError, SecretsView};
use crate::oidc::routes::cookies::{
    bearer_in, bearer_of, cookie_of, cookie_parts, is_browser, no_cookie, no_state_cookie,
    session_cookie, state_cookie,
};
use crate::oidc::routes::percent::{
    decoded_from, encoded_from, percent_decoded, percent_encoded, query_value,
};
use crate::oidc::routes::{
    asked_return, backchannel_answer, backchannel_counted, callback_answer, callback_counted,
    callback_in, hint_allowed, hints_in, is_form, issuer_check, login_answer, login_redirect,
    logout_answer, logout_done, logout_left, logout_redirect, logout_revokes, logout_token_in,
    return_target, UserCookieView,
};
use crate::oidc::{slashless, Discovered, OidcConfig, ProviderView};
use crate::reply::{found, page, plus_header, unavailable, ReplyView};
use crate::text::laws::{is_blank, is_solid, law_cut_once, law_trim};
use crate::text::{is_white, lower, named_value, occurs, parts, trimmed, utf8_lossy};
use vstd::prelude::*;
use vstd::utf8::*;

verus! {

/// The answers that replies are made of.
pub proof fn law_replies(status: u16, to: Seq<char>, secs: u64, r: ReplyView, name: Seq<char>, value: Seq<char>)
    ensures
        page(status).status == status && page(status).headers.len() == 0 && page(status).body is Page,
        found(to).status == 302 && found(to).body is Empty,
        found(to).headers == seq![("Location"@, to)],
        unavailable(secs).status == 503 && unavailable(secs).body is Page,
        unavailable(secs).headers == seq![("Retry-After"@, decimal(secs as nat))],
        plus_header(r, name, value).status == r.status,
        plus_header(r, name, value).body == r.body,
        plus_header(r, name, value).headers == r.headers.push((name, value)),
        logout_done().status == 200 && logout_done().body is Empty,
        logout_done().headers == seq![("Cache-Control"@, "no-store"@)],
{
    assert(unavailable(secs).headers =~= seq![("Retry-After"@, decimal(secs as nat))]);
}

/// Letters, digits and `-_.~/` are written as they are, and every other byte as a percent sign
/// and its two hexadecimal digits, the high one first and in upper case.
pub proof fn law_bytes_are_escaped(b: Seq<u8>, i: int)
    requires
        0 <= i < b.len(),
    ensures
        encoded_from(b, b.len() as int) == Seq::<char>::empty(),
        ({
            let x = b[i];
            let rest = encoded_from(b, i + 1);
            let e = encoded_from(b, i);
            let plain = 0x41 <= x <= 0x5a || 0x61 <= x <= 0x7a || 0x30 <= x <= 0x39 || x == 0x2d || x
                == 0x5f || x == 0x2e || x == 0x7e || x == 0x2f;
            let hi = x as int / 16;
            let lo = x as int % 16;
            &&& plain ==> e.len() == 1 + rest.len() && e[0] as int == x && e.skip(1) == rest
            &&& !plain ==> {
                &&& e.len() == 3 + rest.len()
                &&& e[0] == '%'
                &&& e[1] as int == if hi < 10 { 0x30 + hi } else { 0x41 + hi - 10 }
                &&& e[2] as int == if lo < 10 { 0x30 + lo } else { 0x41 + lo - 10 }
                &&& e.skip(3) == rest
            }
        }),
{
    let e = encoded_from(b, i);
    let rest = encoded_from(b, i + 1);
    assert(e.skip(1) =~= rest || e.skip(3) =~= rest);
}

/// A percent sign with two hexadecimal digits of either case behind it stands for one byte, and
/// everything else for itself.
pub proof fn law_escapes_are_read(b: Seq<u8>, i: int)
    requires
        0 <= i < b.len(),
    ensures
        decoded_from(b, b.len() as int) == Seq::<u8>::empty(),
        ({
            let d = decoded_from(b, i);
            let digit = |x: u8| 0x30 <= x <= 0x39 || 0x41 <= x <= 0x46 || 0x61 <= x <= 0x66;
            let value = |x: u8|
                if x <= 0x39 { x - 0x30 } else if x <= 0x46 { x - 0x41 + 10 } else { x - 0x61 + 10 };
            if b[i] == 0x25 && i + 2 < b.len() && digit(b[i + 1]) && digit(b[i + 2]) {
                d.len() == 1 + decoded_from(b, i + 3).len() && d[0] as int == value(b[i + 1]) * 16 + value(b[i + 2])
                    && d.skip(1) == decoded_from(b, i + 3)
            } else {
                d.len() == 1 + decoded_from(b, i + 1).len() && d[0] == b[i] && d.skip(1) == decoded_from(b, i + 1)
            }
        }),
{
    let d = decoded_from(b, i);
    assert(d.skip(1) =~= decoded_from(b, i + 1) || d.skip(1) =~= decoded_from(b, i + 3));
}

/// A text is escaped by its UTF-8 bytes, and an escaped text is read the same way. A parameter
/// of a query string is the first of its name, unescaped.
pub proof fn law_texts_are_escaped(s: Seq<char>, query: Seq<char>, key: Seq<char>)
    ensures
        percent_encoded(s) == encoded_from(encode_utf8(s), 0),
        percent_decoded(s) == utf8_lossy(decoded_from(encode_utf8(s), 0)),
        query_value(query, key) == (match named_value(parts(query, '&'), key, 0) {
            Some(v) => Some(percent_decoded(v)),
            None => None,
        }),
{
}

/// A request comes from a browser if and only if it brings no credentials of its own and takes
/// HTML or anything.
pub proof fn law_browsers(h: Map<Seq<char>, Seq<Seq<u8>>>)
    ensures
        is_browser(h) <==> first_value(h, "authorization"@) is None && first_text(h, "accept"@)
            is Some && (occurs(first_text(h, "accept"@)->0, "text/html"@) || occurs(
            first_text(h, "accept"@)->0,
            "*/*"@,
        )),
{
}

/// A bearer token is what stands behind the word `Bearer`, in letters of any case, and one
/// blank, without the white space around it.
pub proof fn law_bearer_token(scheme: Seq<char>, a: Seq<char>, token: Seq<char>, b: Seq<char>)
    requires
        !scheme.contains(' '),
        is_blank(a),
        is_blank(b),
        is_solid(token),
        token.len() > 0,
    ensures
        ({
            let raw = scheme.push(' ') + (a + token + b);
            &&& lower(scheme) == "bearer"@ ==> bearer_in(raw) == Some(token)
            &&& lower(scheme) != "bearer"@ ==> bearer_in(raw) is None
            &&& bearer_in(scheme) is None
            &&& bearer_in(scheme.push(' ') + a) is None
        }),
{
    reveal_strlit("bearer");
    assert(lower("bearer"@) =~= "bearer"@);
    law_cut_once(scheme, ' ', a + token + b);
    law_cut_once(scheme, ' ', a);
    assert(!is_white(token[0]));
    assert(!is_white(token[token.len() - 1]));
    law_trim(a, token, b);
}

/// The bearer token of a request is that of its first authorization header.
pub proof fn law_bearer_of_a_request(h: Map<Seq<char>, Seq<Seq<u8>>>)
    ensures
        bearer_of(h) == (match first_text(h, "authorization"@) {
            Some(raw) => bearer_in(raw),
            None => None,
        }),
{
}

/// A cookie is looked for among the pairs between semicolons of the first cookie header, without
/// the white space around them. The first of its name counts.
pub proof fn law_cookies(h: Map<Seq<char>, Seq<Seq<u8>>>, name: Seq<char>, raw: Seq<char>, i: int)
    requires
        first_text(h, "cookie"@) == Some(raw),
        0 <= i < parts(raw, ';').len(),
    ensures
        cookie_of(h, name) == named_value(cookie_parts(raw), name, 0),
        cookie_parts(raw).len() == parts(raw, ';').len(),
        cookie_parts(raw)[i] == trimmed(parts(raw, ';')[i]),
{
}

/// Without a cookie header there are no cookies.
pub proof fn law_no_cookies(h: Map<Seq<char>, Seq<Seq<u8>>>, name: Seq<char>)
    requires
        first_text(h, "cookie"@) is None,
    ensures
        cookie_of(h, name) is None,
{
}

/// The cookies that are set: each with its value, for the whole site, out of reach of scripts,
/// for as long as given, and over TLS only where the request came that way. An emptied cookie
/// has no time left.
pub proof fn law_set_cookies(name: Seq<char>, value: Seq<char>, secs: u64)
    ensures
        state_cookie(value, secs, true) == "__hypershunt_oidc_state="@ + value
            + "; Path=/; HttpOnly; SameSite=Lax; Max-Age="@ + decimal(secs as nat) + "; Secure"@,
        state_cookie(value, secs, false) == "__hypershunt_oidc_state="@ + value
            + "; Path=/; HttpOnly; SameSite=Lax; Max-Age="@ + decimal(secs as nat),
        no_state_cookie(true)
            == "__hypershunt_oidc_state=; Path=/; HttpOnly; SameSite=Lax; Max-Age=0"@ + "; Secure"@,
        no_state_cookie(false)
            == "__hypershunt_oidc_state=; Path=/; HttpOnly; SameSite=Lax; Max-Age=0"@,
        session_cookie(name, value, secs, true) == name + "="@ + value
            + "; Path=/; HttpOnly; SameSite=Strict; Max-Age="@ + decimal(secs as nat) + "; Secure"@,
        session_cookie(name, value, secs, false) == name + "="@ + value
            + "; Path=/; HttpOnly; SameSite=Strict; Max-Age="@ + decimal(secs as nat),
        no_cookie(name, true) == name + "=; Path=/; HttpOnly; SameSite=Strict; Max-Age=0"@
            + "; Secure"@,
        no_cookie(name, false) == name + "=; Path=/; HttpOnly; SameSite=Strict; Max-Age=0"@,
{
    assert(state_cookie(value, secs, false) =~= "__hypershunt_oidc_state="@ + value
        + "; Path=/; HttpOnly; SameSite=Lax; Max-Age="@ + decimal(secs as nat));
    assert(no_state_cookie(false)
        =~= "__hypershunt_oidc_state=; Path=/; HttpOnly; SameSite=Lax; Max-Age=0"@);
    assert(session_cookie(name, value, secs, false) =~= name + "="@ + value
        + "; Path=/; HttpOnly; SameSite=Strict; Max-Age="@ + decimal(secs as nat));
    assert(no_cookie(name, false) =~= name + "=; Path=/; HttpOnly; SameSite=Strict; Max-Age=0"@);
}

/// A hint is 1 to 256 visible ASCII characters or blanks, none of them a percent sign.
pub proof fn law_hint_characters(s: Seq<char>)
    ensures
        hint_allowed(s) <==> {
            let b = encode_utf8(s);
            &&& 1 <= b.len() <= 256
            &&& forall|i: int| 0 <= i < b.len() ==> 0x20 <= #[trigger] b[i] <= 0x7e
            &&& forall|i: int| 0 <= i < b.len() ==> #[trigger] b[i] != 0x25
        },
{
}

/// A hint that a query string does not give, or gives as a hint may be.
pub open spec fn gives_no_bad(query: Seq<char>, name: Seq<char>) -> bool {
    query_value(query, name) is None || hint_allowed(query_value(query, name)->0)
}

/// The hints of a query string are the parameters of these five names, unless one of them is no
/// hint.
pub proof fn law_hints_of_a_query(query: Seq<char>)
    ensures
        hints_in(query) is Some <==> gives_no_bad(query, "login_hint"@) && gives_no_bad(
            query,
            "prompt"@,
        ) && gives_no_bad(query, "max_age"@) && gives_no_bad(query, "acr_values"@) && gives_no_bad(
            query,
            "ui_locales"@,
        ),
        hints_in(query) matches Some(h) ==> {
            &&& h.login_hint == query_value(query, "login_hint"@)
            &&& h.prompt == query_value(query, "prompt"@)
            &&& h.max_age == query_value(query, "max_age"@)
            &&& h.acr_values == query_value(query, "acr_values"@)
            &&& h.ui_locales == query_value(query, "ui_locales"@)
        },
{
}

/// Hints go to the provider under their names, those that there are, in this order.
pub proof fn law_hints_by_name(
    a: Seq<char>,
    b: Seq<char>,
    c: Seq<char>,
    d: Seq<char>,
    e: Seq<char>,
    h: HintsView,
)
    ensures
        hint_pairs(
            HintsView {
                login_hint: Some(a),
                prompt: Some(b),
                max_age: Some(c),
                acr_values: Some(d),
                ui_locales: Some(e),
            },
        ) == seq![
            ("login_hint"@, a),
            ("prompt"@, b),
            ("max_age"@, c),
            ("acr_values"@, d),
            ("ui_locales"@, e),
        ],
        hint_pairs(h) == hint_pairs(HintsView { login_hint: h.login_hint, ..no_hints() })
            + hint_pairs(HintsView { prompt: h.prompt, ..no_hints() }) + hint_pairs(
            HintsView { max_age: h.max_age, ..no_hints() },
        ) + hint_pairs(HintsView { acr_values: h.acr_values, ..no_hints() })
            + hint_pairs(HintsView { ui_locales: h.ui_locales, ..no_hints() }),
        hint_pairs(no_hints()).len() == 0,
        hint_pairs(HintsView { login_hint: Some(a), ..no_hints() }) == seq![
            ("login_hint"@, a),
        ],
        hint_pairs(HintsView { prompt: Some(a), ..no_hints() }) == seq![
            ("prompt"@, a),
        ],
        hint_pairs(HintsView { max_age: Some(a), ..no_hints() }) == seq![
            ("max_age"@, a),
        ],
        hint_pairs(HintsView { acr_values: Some(a), ..no_hints() }) == seq![
            ("acr_values"@, a),
        ],
        hint_pairs(HintsView { ui_locales: Some(a), ..no_hints() }) == seq![
            ("ui_locales"@, a),
        ],
{
}

/// A browser goes back to a path of this server: one that begins with a slash that neither a
/// slash nor a backslash follows. To the root where it asked for anything else.
pub proof fn law_return_path(raw: Seq<char>)
    ensures
        raw.len() == 0 || raw[0] != '/' || raw.len() > 1 && (raw[1] == '/' || raw[1] == '\\')
            ==> return_target(raw) == "/"@,
        raw.len() > 0 && raw[0] == '/' && (raw.len() == 1 || raw[1] != '/' && raw[1] != '\\')
            ==> return_target(raw) == raw,
{
}

/// A login asks to go back to the path that the query string names.
pub proof fn law_asked_return(query: Seq<char>)
    ensures
        query_value(query, "return"@) is Some ==> asked_return(query) == return_target(
            query_value(query, "return"@)->0,
        ),
        query_value(query, "return"@) is None ==> asked_return(query) == "/"@,
{
    reveal_strlit("/");
}

/// Whoever is to log in is sent to the login path with the escaped place to come back to.
pub proof fn law_login_redirect(path: Seq<char>, back: Seq<char>)
    ensures
        login_redirect(path, back) == path + "?return="@ + percent_encoded(back),
{
}

/// A login is answered with the way to the provider and a cookie with the state, good for ten
/// minutes. Bad hints are refused, and where no login can begin the browser is asked to come
/// back in five seconds.
pub proof fn law_login_answer(
    cfg: OidcConfig,
    p: ProviderView,
    query: Seq<char>,
    is_tls: bool,
    s: SecretsView,
    now: u64,
)
    ensures
        ({
            let (r, left) = login_answer(cfg, p, query, is_tls, s, now);
            if hints_in(query) is None {
                r == page(400) && left == p
            } else {
                let begun = login_begun(
                    cfg,
                    p,
                    asked_return(query),
                    hint_pairs(hints_in(query)->0),
                    s,
                    now,
                );
                &&& left == begun.1
                &&& begun.0 is None ==> r == unavailable(5)
                &&& begun.0 is Some ==> {
                    &&& r.status == 302
                    &&& r.body is Empty
                    &&& r.headers == seq![
                        ("Location"@, begun.0->Some_0.0),
                        ("Set-Cookie"@, state_cookie(begun.0->Some_0.1, 600, is_tls)),
                    ]
                }
            }
        }),
{
    let r = login_answer(cfg, p, query, is_tls, s, now).0;
    if hints_in(query) is Some {
        let begun = login_begun(cfg, p, asked_return(query), hint_pairs(hints_in(query)->0), s, now).0;
        if begun is Some {
            assert(r.headers =~= seq![
                ("Location"@, begun->Some_0.0),
                ("Set-Cookie"@, state_cookie(begun->Some_0.1, 600, is_tls)),
            ]);
        }
    }
}

/// Whoever logs out goes to the provider where that is wanted and it says where, with the ID
/// token if there is one, where to come back to, and for which client; and else straight to the
/// page behind a logout.
pub proof fn law_logout_redirect(cfg: OidcConfig, url: Seq<char>, hint: Seq<char>)
    ensures
        logout_redirect(cfg, None, Some(hint)) == cfg.post_logout_uri@,
        logout_redirect(cfg, None, None) == cfg.post_logout_uri@,
        !cfg.idp_logout ==> logout_redirect(cfg, Some(url), Some(hint)) == cfg.post_logout_uri@
            && logout_redirect(cfg, Some(url), None) == cfg.post_logout_uri@,
        cfg.idp_logout ==> {
            let sep = if url.contains('?') { "&"@ } else { "?"@ };
            let back = "post_logout_redirect_uri="@ + percent_encoded(cfg.post_logout_uri@)
                + "&client_id="@ + percent_encoded(cfg.client_id@);
            &&& logout_redirect(cfg, Some(url), Some(hint)) == url + sep + "id_token_hint="@
                + percent_encoded(hint) + "&"@ + back
            &&& logout_redirect(cfg, Some(url), None) == url + sep + back
        },
{
    reveal_strlit("&");
    reveal_strlit("?");
    if cfg.idp_logout {
        let sep = if url.contains('?') { "&"@ } else { "?"@ };
        let back = "post_logout_redirect_uri="@ + percent_encoded(cfg.post_logout_uri@)
            + "&client_id="@ + percent_encoded(cfg.client_id@);
        assert(logout_redirect(cfg, Some(url), Some(hint)) =~= url + sep + "id_token_hint="@
            + percent_encoded(hint) + "&"@ + back);
        assert(logout_redirect(cfg, Some(url), None) =~= url + sep + back);
    }
}

/// A logout ends the session of the cookie, empties all cookies, and sends the browser on, with
/// the session's ID token. The session's refresh token is to be revoked where that is due.
pub proof fn law_logout_answer(
    cfg: OidcConfig,
    p: ProviderView,
    jwt: Seq<char>,
    h: Map<Seq<char>, Seq<Seq<u8>>>,
    is_tls: bool,
)
    ensures
        ({
            let sid = cookie_of(h, cfg.refresh_cookie_name@);
            let known = sid is Some && p.refreshes.dom().contains(sid->0);
            let hint = if known {
                Some(p.refreshes[sid->0].id_token)
            } else {
                None
            };
            let to = ("Location"@, logout_redirect(cfg, p.end_session_url, hint));
            let own = ("Set-Cookie"@, no_cookie(jwt, is_tls));
            let session = ("Set-Cookie"@, no_cookie(cfg.refresh_cookie_name@, is_tls));
            let state = ("Set-Cookie"@, no_state_cookie(is_tls));
            let r = logout_answer(cfg, p, Some(jwt), h, is_tls);
            let q = logout_answer(cfg, p, None, h, is_tls);
            &&& r.status == 302 && r.body is Empty && r.headers == seq![to, own, session, state]
            &&& q.status == 302 && q.body is Empty && q.headers == seq![to, session, state]
            &&& logout_left(cfg, p, h) == (if sid is Some {
                ProviderView { refreshes: p.refreshes.remove(sid->0), ..p }
            } else {
                p
            })
            &&& logout_revokes(cfg, p, h) == (if known && cfg.revoke_on_logout && p.client is Some
                && p.revocation_url is Some {
                Some(p.refreshes[sid->0].refresh_token)
            } else {
                None
            })
        }),
{
    let sid = cookie_of(h, cfg.refresh_cookie_name@);
    let known = sid is Some && p.refreshes.dom().contains(sid->0);
    let hint = if known {
        Some(p.refreshes[sid->0].id_token)
    } else {
        None
    };
    let to = ("Location"@, logout_redirect(cfg, p.end_session_url, hint));
    let own = ("Set-Cookie"@, no_cookie(jwt, is_tls));
    let session = ("Set-Cookie"@, no_cookie(cfg.refresh_cookie_name@, is_tls));
    let state = ("Set-Cookie"@, no_state_cookie(is_tls));
    assert(logout_answer(cfg, p, Some(jwt), h, is_tls).headers =~= seq![to, own, session, state]);
    assert(logout_answer(cfg, p, None, h, is_tls).headers =~= seq![to, session, state]);
}

/// The issuer that a callback names has to be the configured one, but for slashes at the end. It
/// may name none unless it has to.
pub proof fn law_issuer_of_a_callback(cfg: OidcConfig, iss: Seq<char>)
    ensures
        issuer_check(cfg, Some(iss)) is Accepted <==> slashless(iss) == slashless(cfg.issuer@),
        issuer_check(cfg, None) is Accepted <==> !cfg.require_iss,
{
}

/// A callback is taken if and only if it gives a code and a state, comes from the issuer, and
/// the browser has the cookie with that state. A wrong issuer is counted.
pub proof fn law_callback_is_taken(
    cfg: OidcConfig,
    h: Map<Seq<char>, Seq<Seq<u8>>>,
    query: Seq<char>,
    m: Metrics,
)
    ensures
        ({
            let code = query_value(query, "code"@);
            let state = query_value(query, "state"@);
            let accepted = issuer_check(cfg, query_value(query, "iss"@)) is Accepted;
            &&& callback_in(cfg, h, query) == (if code is Some && state is Some && accepted && cookie_of(
                h,
                "__hypershunt_oidc_state"@,
            ) == state {
                Some((code->0, state->0))
            } else {
                None
            })
            &&& code is Some && state is Some && !accepted ==> callback_counted(m, cfg, query)
                == (Metrics {
                oidc_callback_iss_mismatches: m.oidc_callback_iss_mismatches.wrapping_add(1),
                ..m
            })
            &&& code is None || state is None || accepted ==> callback_counted(m, cfg, query) == m
        }),
{
}

/// A finished login is answered with the way back, the cookie of the user, an emptied state
/// cookie, and the cookie of the session where there is one. A failed one is refused, and a user
/// without a cookie is an error of the server.
pub proof fn law_callback_answer(
    cfg: OidcConfig,
    id: IdentityView,
    to: Seq<char>,
    sid: Seq<char>,
    user: Seq<char>,
    is_tls: bool,
    e: LoginError,
    cookie: UserCookieView,
)
    ensures
        callback_answer(cfg, Err(e), cookie, is_tls) == page(400),
        !(cookie is Issued) ==> callback_answer(cfg, Ok((id, to, Some(sid))), cookie, is_tls) == page(500)
            && callback_answer(cfg, Ok((id, to, None)), cookie, is_tls) == page(500),
        ({
            let r = callback_answer(cfg, Ok((id, to, Some(sid))), UserCookieView::Issued(user), is_tls);
            let q = callback_answer(cfg, Ok((id, to, None)), UserCookieView::Issued(user), is_tls);
            let first = seq![
                ("Location"@, to),
                ("Set-Cookie"@, user),
                ("Set-Cookie"@, no_state_cookie(is_tls)),
            ];
            &&& r.status == 302 && r.body is Empty && r.headers == first.push(
                (
                    "Set-Cookie"@,
                    session_cookie(cfg.refresh_cookie_name@, sid, cfg.refresh_ttl_secs, is_tls),
                ),
            )
            &&& q.status == 302 && q.body is Empty && q.headers == first
        }),
{
    let first = seq![
        ("Location"@, to),
        ("Set-Cookie"@, user),
        ("Set-Cookie"@, no_state_cookie(is_tls)),
    ];
    assert(callback_answer(cfg, Ok((id, to, None)), UserCookieView::Issued(user), is_tls).headers
        =~= first);
}

/// A logout token is read from the body of a form, of at most 64 KiB of UTF-8 text, under its
/// name.
pub proof fn law_logout_token_of_a_form(h: Map<Seq<char>, Seq<Seq<u8>>>, b: Seq<u8>)
    ensures
        is_form(h) <==> first_text(h, "content-type"@) is Some && lower(
            trimmed(parts(first_text(h, "content-type"@)->0, ';')[0]),
        ) == "application/x-www-form-urlencoded"@,
        is_form(h) && b.len() <= 65536 && valid_utf8(b) ==> logout_token_in(h, Some(b)) == query_value(
            decode_utf8(b),
            "logout_token"@,
        ),
        !is_form(h) || b.len() > 65536 || !valid_utf8(b) ==> logout_token_in(h, Some(b)) is None,
        logout_token_in(h, None) is None,
{
    reveal_strlit("application/x-www-form-urlencoded");
    assert(lower("application/x-www-form-urlencoded"@) =~= "application/x-www-form-urlencoded"@);
}

/// The provider is told whether a logout was done, and both are counted.
pub proof fn law_backchannel_answer(
    cfg: OidcConfig,
    p: ProviderView,
    token: Seq<char>,
    now: u64,
    unix_now: u64,
    m: Metrics,
)
    ensures
        backchannel_answer(cfg, p, None, now, unix_now) == (page(400), p),
        ({
            let (r, left) = backchannel_answer(cfg, p, Some(token), now, unix_now);
            let (done, after) = logout_pushed(cfg, p, token, now, unix_now);
            &&& left == after
            &&& done is Ok ==> r == logout_done()
            &&& done is Err ==> r == page(400)
        }),
        backchannel_counted(m, true) == (Metrics {
            oidc_backchannel_logouts: m.oidc_backchannel_logouts.wrapping_add(1),
            ..m
        }),
        backchannel_counted(m, false) == (Metrics {
            oidc_backchannel_failures: m.oidc_backchannel_failures.wrapping_add(1),
            ..m
        }),
{
}

/// Failed looks for the provider's documents are repeated after 1, 2, 4 and so on seconds, up to
/// 256 seconds.
pub proof fn law_backoff_doubles(attempt: u32)
    ensures
        backoff(0) == 1,
        attempt < 8 ==> backoff((attempt + 1) as u32) == 2 * backoff(attempt),
        attempt >= 8 ==> backoff(attempt) == 256,
{
    vstd::arithmetic::power2::lemma2_to64();
    assert(attempt < 8 ==> attempt == 0 || attempt == 1 || attempt == 2 || attempt == 3 || attempt == 4
        || attempt == 5 || attempt == 6 || attempt == 7);
}

/// When the provider's documents are looked at again: after a failed first look where that is
/// wanted, and after a good one from time to time where that is wanted.
pub proof fn law_next_look(attempt: u32, ok: bool, retry: bool, refresh_secs: u64)
    ensures
        ({
            let (next, wait) = next_look(DiscoveryPhase::Bootstrap { attempt }, ok, retry, refresh_secs);
            &&& ok && refresh_secs > 0 ==> next is Periodic && wait == Some(refresh_secs as int)
            &&& ok && refresh_secs == 0 ==> next is Stopped && wait is None
            &&& !ok && retry ==> wait == Some(backoff(attempt)) && next == (DiscoveryPhase::Bootstrap {
                attempt: if attempt == u32::MAX { attempt } else { (attempt + 1) as u32 },
            })
            &&& !ok && !retry ==> next is Stopped && wait is None
        }),
        next_look(DiscoveryPhase::Periodic, ok, retry, refresh_secs) == (
            DiscoveryPhase::Periodic,
            Some(refresh_secs as int),
        ),
{
}

/// A good look takes over what the provider says, all of it, and leaves logins, sessions and
/// tokens alone. It is counted, and so is a failed one.
pub proof fn law_look_takes_over(p: ProviderView, d: Discovered, m: Metrics)
    ensures
        ({
            let q = after_look(p, Some(d));
            &&& q.client == Some((d.issuer@, d.authorization_url@))
            &&& d.end_session_url matches Some(u) ==> q.end_session_url == Some(u@)
            &&& d.end_session_url is None ==> q.end_session_url is None
            &&& d.revocation_url matches Some(u) ==> q.revocation_url == Some(u@)
            &&& d.revocation_url is None ==> q.revocation_url is None
            &&& q.jwks is Some && q.jwks->0.len() == d.jwks@.len()
            &&& forall|i: int| 0 <= i < d.jwks@.len() ==> #[trigger] (q.jwks->0)[i] == d.jwks@[i]@
            &&& q.states == p.states && q.refreshes == p.refreshes && q.seen_jtis == p.seen_jtis
            &&& q.tokens == p.tokens && q.token_cap == p.token_cap
        }),
        look_counted(m, true) == (Metrics {
            oidc_discoveries: m.oidc_discoveries.wrapping_add(1),
            ..m
        }),
        look_counted(m, false) == (Metrics {
            oidc_discovery_failures: m.oidc_discovery_failures.wrapping_add(1),
            ..m
        }),
{
}

} // verus!
