//! Cookies and credentials: reading them from a request, and writing the ones
//! that sign-on sets.
use crate::decimal::{decimal, decimal_string};
use crate::headers::{first_text, first_value, get_text, has_header, header_values};
use crate::text::{
    chars_of, contains_text, find_named, lower, named_value, occurs, once, parts,
    same_ignoring_case, split_on, split_once, string_of, trim, trimmed, views,
};
use vstd::prelude::*;

verus! {

/// A browser: it takes HTML, and has shown no `Authorization` header.
pub open spec fn is_browser(h: Map<Seq<char>, Seq<Seq<u8>>>) -> bool {
    first_value(h, "authorization"@) is None && (first_text(h, "accept"@) matches Some(s) && (occurs(
        s,
        "text/html"@,
    ) || occurs(s, "*/*"@)))
}

/// Whether a request comes from a browser.
pub fn wants_html(h: &hyper::HeaderMap) -> (r: bool)
    ensures
        r == is_browser(header_values(*h)),
{
    if has_header(h, "authorization") {
        return false;
    }
    match get_text(h, "accept") {
        Some(s) => contains_text(s.as_str(), "text/html") || contains_text(s.as_str(), "*/*"),
        None => false,
    }
}

/// The token behind the word `Bearer`, in any case, without blanks around it.
pub open spec fn bearer_in(raw: Seq<char>) -> Option<Seq<char>> {
    match once(raw, ' ') {
        Some((scheme, token)) => if lower(scheme) == lower("bearer"@) && trimmed(token).len() > 0 {
            Some(trimmed(token))
        } else {
            None
        },
        None => None,
    }
}

/// The bearer token of a request.
pub open spec fn bearer_of(h: Map<Seq<char>, Seq<Seq<u8>>>) -> Option<Seq<char>> {
    match first_text(h, "authorization"@) {
        Some(raw) => bearer_in(raw),
        None => None,
    }
}

/// Reads the bearer token of a request.
pub fn extract_bearer(headers: &hyper::HeaderMap) -> (r: Option<String>)
    ensures
        match r {
            Some(t) => bearer_of(header_values(*headers)) == Some(t@),
            None => bearer_of(header_values(*headers)) is None,
        },
{
    let raw = match get_text(headers, "authorization") {
        Some(s) => s,
        None => {
            return None;
        },
    };
    let cs = chars_of(raw.as_str());
    match split_once(cs.as_slice(), ' ') {
        Some((scheme, token)) => {
            if !same_ignoring_case(string_of(scheme).as_str(), "bearer") {
                return None;
            }
            let t = trim(token);
            if t.len() == 0 {
                None
            } else {
                Some(string_of(t))
            }
        },
        None => None,
    }
}

/// The parts of a cookie header, without blanks around them.
pub open spec fn cookie_parts(raw: Seq<char>) -> Seq<Seq<char>> {
    let p = parts(raw, ';');
    Seq::new(p.len(), |i: int| trimmed(p[i]))
}

/// The value of a cookie of a request.
pub open spec fn cookie_of(h: Map<Seq<char>, Seq<Seq<u8>>>, name: Seq<char>) -> Option<Seq<char>> {
    match first_text(h, "cookie"@) {
        Some(raw) => named_value(cookie_parts(raw), name, 0),
        None => None,
    }
}

/// Reads the value of a cookie of a request.
pub fn cookie_value(headers: &hyper::HeaderMap, name: &str) -> (r: Option<String>)
    ensures
        match r {
            Some(v) => cookie_of(header_values(*headers), name@) == Some(v@),
            None => cookie_of(header_values(*headers), name@) is None,
        },
{
    let raw = match get_text(headers, "cookie") {
        Some(s) => s,
        None => {
            return None;
        },
    };
    let cs = chars_of(raw.as_str());
    let p = split_on(cs.as_slice(), ';');
    let n: usize = p.len();
    let mut bare: Vec<&[char]> = Vec::new();
    let mut i: usize = 0;
    while i < n
        invariant
            n == p@.len(),
            i <= n,
            bare@.len() == i,
            forall|j: int| 0 <= j < i ==> (#[trigger] bare@[j])@ == trimmed(p@[j]@),
        decreases n - i,
    {
        bare.push(trim(p[i]));
        i = i + 1;
    }
    proof {
        assert forall|j: int| 0 <= j < n implies parts(raw@, ';')[j] == #[trigger] p@[j]@ by {
            assert(views(p@)[j] == p@[j]@);
        }
        assert(views(bare@) =~= cookie_parts(raw@));
    }
    find_named(&bare, name)
}

/// What marks a cookie as one for encrypted connections only.
pub open spec fn secure_mark(is_tls: bool) -> Seq<char> {
    if is_tls {
        "; Secure"@
    } else {
        Seq::empty()
    }
}

fn push_secure(v: &mut String, is_tls: bool)
    ensures
        final(v)@ == old(v)@ + secure_mark(is_tls),
{
    if is_tls {
        v.append("; Secure");
    }
    assert(v@ =~= old(v)@ + secure_mark(is_tls));
}

/// The cookie that ties the browser to a login: it comes back when the provider
/// sends the browser back.
pub open spec fn state_cookie(state: Seq<char>, ttl_secs: u64, is_tls: bool) -> Seq<char> {
    "__hypershunt_oidc_state="@ + state + "; Path=/; HttpOnly; SameSite=Lax; Max-Age="@ + decimal(
        ttl_secs as nat,
    ) + secure_mark(is_tls)
}

/// Writes the cookie that ties the browser to a login.
pub fn state_cookie_value(state_id: &str, ttl_secs: u64, is_tls: bool) -> (r: String)
    ensures
        r@ == state_cookie(state_id@, ttl_secs, is_tls),
{
    let mut v = "__hypershunt_oidc_state=".to_owned();
    v.append(state_id);
    v.append("; Path=/; HttpOnly; SameSite=Lax; Max-Age=");
    v.append(decimal_string(ttl_secs).as_str());
    push_secure(&mut v, is_tls);
    v
}

/// What takes the cookie of a login away.
pub open spec fn no_state_cookie(is_tls: bool) -> Seq<char> {
    "__hypershunt_oidc_state=; Path=/; HttpOnly; SameSite=Lax; Max-Age=0"@ + secure_mark(is_tls)
}

/// Writes what takes the cookie of a login away.
pub fn clear_state_cookie(is_tls: bool) -> (r: String)
    ensures
        r@ == no_state_cookie(is_tls),
{
    let mut v = "__hypershunt_oidc_state=; Path=/; HttpOnly; SameSite=Lax; Max-Age=0".to_owned();
    push_secure(&mut v, is_tls);
    v
}

/// The cookie that names a session.
pub open spec fn session_cookie(
    name: Seq<char>,
    sid: Seq<char>,
    ttl_secs: u64,
    is_tls: bool,
) -> Seq<char> {
    name + "="@ + sid + "; Path=/; HttpOnly; SameSite=Strict; Max-Age="@ + decimal(
        ttl_secs as nat,
    ) + secure_mark(is_tls)
}

/// Writes the cookie that names a session.
pub fn refresh_cookie_value(name: &str, sid: &str, ttl_secs: u64, is_tls: bool) -> (r: String)
    ensures
        r@ == session_cookie(name@, sid@, ttl_secs, is_tls),
{
    let mut v = name.to_owned();
    v.append("=");
    v.append(sid);
    v.append("; Path=/; HttpOnly; SameSite=Strict; Max-Age=");
    v.append(decimal_string(ttl_secs).as_str());
    push_secure(&mut v, is_tls);
    v
}

/// What takes a cookie away.
pub open spec fn no_cookie(name: Seq<char>, is_tls: bool) -> Seq<char> {
    name + "=; Path=/; HttpOnly; SameSite=Strict; Max-Age=0"@ + secure_mark(is_tls)
}

/// Writes what takes the cookie that names a session away.
pub fn clear_refresh_cookie(name: &str, is_tls: bool) -> (r: String)
    ensures
        r@ == no_cookie(name@, is_tls),
{
    let mut v = name.to_owned();
    v.append("=; Path=/; HttpOnly; SameSite=Strict; Max-Age=0");
    push_secure(&mut v, is_tls);
    v
}

/// Writes what takes the cookie of a signed-in user away.
pub fn clear_jwt_cookie(name: &str, is_tls: bool) -> (r: String)
    ensures
        r@ == no_cookie(name@, is_tls),
{
    clear_refresh_cookie(name, is_tls)
}

} // verus!
