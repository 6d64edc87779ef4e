//! Requests that the server answers itself.
use crate::listener::service::admission::{one_less, Admitted};
use crate::metrics::Metrics;
use crate::oidc::{OidcConfig, OidcProvider};
use crate::oidc::claims::text_opt;
use crate::oidc::routes::RETRY_SECS;
use crate::reply::{response_503_retry, unavailable, BodyView, Reply, ReplyBody, ReplyView};
use crate::strmap::StrMap;
use crate::text::{chars_of, has_prefix, same_str, starts_with, string_of};
use vstd::prelude::*;
use vstd::slice::slice_subrange;

verus! {

/// What answers a request.
pub enum Intercept {
    /// The answer to a challenge of a certificate authority.
    Acme(String),
    /// The answer of the health check.
    Health(Reply),
    /// The document with the server's public key.
    Jwks,
    /// Sign-on is not ready yet.
    NotReady,
    Login,
    Callback,
    Backchannel,
    /// A logout token comes with another method than POST.
    WrongMethod,
    Logout,
    /// Nothing: the request is open to routing.
    Open,
}

/// What answers a request, by value.
pub enum InterceptView {
    Acme(Seq<char>),
    Health(ReplyView),
    Jwks,
    NotReady,
    Login,
    Callback,
    Backchannel,
    WrongMethod,
    Logout,
    Open,
}

impl View for Intercept {
    type V = InterceptView;

    open spec fn view(&self) -> InterceptView {
        match self {
            Intercept::Acme(s) => InterceptView::Acme(s@),
            Intercept::Health(r) => InterceptView::Health(r@),
            Intercept::Jwks => InterceptView::Jwks,
            Intercept::NotReady => InterceptView::NotReady,
            Intercept::Login => InterceptView::Login,
            Intercept::Callback => InterceptView::Callback,
            Intercept::Backchannel => InterceptView::Backchannel,
            Intercept::WrongMethod => InterceptView::WrongMethod,
            Intercept::Logout => InterceptView::Logout,
            Intercept::Open => InterceptView::Open,
        }
    }
}

/// Where certificate authorities look for the answers to their challenges.
pub open spec fn acme_prefix() -> Seq<char> {
    "/.well-known/acme-challenge/"@
}

/// The answer to a challenge, where the path asks for one that is known.
pub open spec fn acme_answer(path: Seq<char>, known: Map<Seq<char>, String>) -> Option<Seq<char>> {
    if has_prefix(path, acme_prefix()) {
        let token = path.skip(acme_prefix().len() as int);
        if known.dom().contains(token) {
            Some(known[token]@)
        } else {
            None
        }
    } else {
        None
    }
}

/// Which sign-on endpoint answers a path.
pub open spec fn oidc_route(
    cfg: OidcConfig,
    ready: bool,
    path: Seq<char>,
    method: Seq<char>,
) -> InterceptView {
    if path == cfg.login_path@ {
        if ready {
            InterceptView::Login
        } else {
            InterceptView::NotReady
        }
    } else if path == cfg.callback_path@ {
        if ready {
            InterceptView::Callback
        } else {
            InterceptView::NotReady
        }
    } else if cfg.backchannel_logout_enabled && path == cfg.backchannel_logout_path@ {
        if method != "POST"@ {
            InterceptView::WrongMethod
        } else if ready {
            InterceptView::Backchannel
        } else {
            InterceptView::NotReady
        }
    } else if path == cfg.logout_path@ {
        if ready {
            InterceptView::Logout
        } else {
            InterceptView::NotReady
        }
    } else {
        InterceptView::Open
    }
}

/// What answers a request: a known challenge first, the health check next, then
/// the public key, then sign-on.
pub open spec fn intercepted(
    path: Seq<char>,
    method: Seq<char>,
    known: Map<Seq<char>, String>,
    health: Option<ReplyView>,
    has_jwt: bool,
    oidc: Option<(OidcConfig, bool)>,
) -> InterceptView {
    match acme_answer(path, known) {
        Some(body) => InterceptView::Acme(body),
        None => match health {
            Some(r) => InterceptView::Health(r),
            None => if has_jwt && path == "/.well-known/jwks.json"@ {
                InterceptView::Jwks
            } else {
                match oidc {
                    Some((cfg, ready)) => oidc_route(cfg, ready, path, method),
                    None => InterceptView::Open,
                }
            },
        },
    }
}

/// A provider as the routing of its endpoints sees it.
pub open spec fn oidc_facts(oidc: Option<&OidcProvider>) -> Option<(OidcConfig, bool)> {
    match oidc {
        Some(p) => Some((p.cfg, p@.client is Some)),
        None => None,
    }
}

fn find_acme(path: &str, known: &StrMap<String>) -> (r: Option<String>)
    ensures
        text_opt(r) == acme_answer(path@, known@),
{
    let cs = chars_of(path);
    let prefix = chars_of("/.well-known/acme-challenge/");
    if !starts_with(cs.as_slice(), prefix.as_slice()) {
        return None;
    }
    let rest = slice_subrange(cs.as_slice(), prefix.len(), cs.len());
    let token = string_of(rest);
    assert(token@ =~= path@.skip(acme_prefix().len() as int));
    match known.get(token.as_str()) {
        Some(body) => Some(body.clone()),
        None => None,
    }
}

fn route_oidc(oidc: &OidcProvider, path: &str, method: &str) -> (r: Intercept)
    ensures
        r@ == oidc_route(oidc.cfg, oidc@.client is Some, path@, method@),
{
    let ready = oidc.is_ready();
    if same_str(path, oidc.login_path()) {
        if ready {
            Intercept::Login
        } else {
            Intercept::NotReady
        }
    } else if same_str(path, oidc.callback_path()) {
        if ready {
            Intercept::Callback
        } else {
            Intercept::NotReady
        }
    } else if oidc.backchannel_logout_enabled() && same_str(path, oidc.backchannel_logout_path()) {
        if !same_str(method, "POST") {
            Intercept::WrongMethod
        } else if ready {
            Intercept::Backchannel
        } else {
            Intercept::NotReady
        }
    } else if same_str(path, oidc.logout_path()) {
        if ready {
            Intercept::Logout
        } else {
            Intercept::NotReady
        }
    } else {
        Intercept::Open
    }
}

impl Admitted {
    /// Says what answers the request. `health` is what the health check answers,
    /// where it is enabled and answers at all.
    pub fn intercept(
        &self,
        path: &str,
        method: &str,
        known: &StrMap<String>,
        health: Option<Reply>,
        has_jwt: bool,
        oidc: Option<&OidcProvider>,
    ) -> (r: Intercept)
        ensures
            r@ == intercepted(
                path@,
                method@,
                known@,
                match health {
                    Some(h) => Some(h@),
                    None => None,
                },
                has_jwt,
                oidc_facts(oidc),
            ),
    {
        match find_acme(path, known) {
            Some(body) => {
                return Intercept::Acme(body);
            },
            None => {},
        }
        match health {
            Some(reply) => {
                return Intercept::Health(reply);
            },
            None => {},
        }
        if has_jwt && same_str(path, "/.well-known/jwks.json") {
            return Intercept::Jwks;
        }
        match oidc {
            Some(p) => route_oidc(p, path, method),
            None => Intercept::Open,
        }
    }

    /// Answers a request to sign-on that is not ready. The request is in flight no
    /// more, and adds to no other counter.
    pub fn refuse_not_ready(self, metrics: &mut Metrics) -> (r: Reply)
        ensures
            r@ == unavailable(RETRY_SECS),
            *final(metrics) == one_less(*old(metrics)),
    {
        metrics.dec_active();
        response_503_retry(RETRY_SECS)
    }
}

/// The answer to a challenge of a certificate authority.
pub open spec fn acme_page(body: Seq<char>) -> ReplyView {
    ReplyView {
        status: 200,
        headers: seq![("Content-Type"@, "text/plain"@)],
        body: BodyView::Text(body),
    }
}

/// Writes the answer to a challenge of a certificate authority.
pub fn acme_reply(body: String) -> (r: Reply)
    ensures
        r@ == acme_page(body@),
{
    let mut r = Reply::new(200, ReplyBody::Text(body));
    r.push_header("Content-Type", "text/plain".to_owned());
    assert(r@.headers =~= seq![("Content-Type"@, "text/plain"@)]);
    r
}

/// The answer with the server's public key.
pub open spec fn jwks_page(doc: Seq<char>) -> ReplyView {
    ReplyView {
        status: 200,
        headers: seq![
            ("Content-Type"@, "application/json"@),
            ("Cache-Control"@, "public, max-age=3600"@),
        ],
        body: BodyView::Text(doc),
    }
}

/// Writes the answer with the server's public key.
pub fn jwks_reply(doc: String) -> (r: Reply)
    ensures
        r@ == jwks_page(doc@),
{
    let mut r = Reply::new(200, ReplyBody::Text(doc));
    r.push_header("Content-Type", "application/json".to_owned());
    r.push_header("Cache-Control", "public, max-age=3600".to_owned());
    assert(r@.headers =~= jwks_page(doc@).headers);
    r
}

} // verus!
