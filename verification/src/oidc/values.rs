//! That the values that contracts speak of are those that the types hold.
use crate::oidc::backchannel::{
    count_view, target_view, LogoutError, LogoutTarget, TargetView,
};
use crate::oidc::bearer::{claims_view, identity_view, BearerError};
use crate::oidc::cache::{
    cache_cap, cached, cached_entry, BearerCacheEntry, Identity, IdentityView,
};
use crate::oidc::claims::{text_opt, texts, Claim, ClaimView, Claims};
use crate::oidc::discovery::wait_view;
use crate::oidc::hints::{no_hints, str_pairs, IdpHints};
use crate::oidc::jws::{jws_outcome, JwsError, JwsView, ParsedJws};
use crate::oidc::login::{
    begun_view, login_view, secrets_drawn, taken_view, Exchange, ExchangeView, Grant, LoginError,
    LoginSecrets, SecretsView, UserInfo, UserInfoView,
};
use crate::oidc::routes::{UserCookie, UserCookieView};
use crate::oidc::session::{pair_view, refresh_view, token_view, RefreshError};
use crate::oidc::{after, nanos, OidcProvider, RefreshEntry, StateEntry, StateView};
use vstd::prelude::*;
use vstd::utf8::encode_utf8;

verus! {

/// Lists of texts, and texts that may be missing.
pub proof fn law_texts_by_value(v: Seq<String>, i: int, s: String)
    ensures
        texts(v).len() == v.len(),
        0 <= i < v.len() ==> texts(v)[i] == v[i]@,
        text_opt(Some(s)) == Some(s@),
        text_opt(None) is None,
{
}

/// A user by name and groups.
pub proof fn law_user_by_value(id: Identity)
    ensures
        id@.username == id.username@,
        id@.groups == texts(id.groups@),
{
}

/// The claims of a document, in order, and each by what it holds.
pub proof fn law_claims_by_value(
    c: Claims,
    i: int,
    b: bool,
    s: String,
    x: Option<i64>,
    y: Option<u64>,
    list: Vec<Option<String>>,
    j: int,
    names: Vec<String>,
)
    ensures
        c@.len() == c.members@.len(),
        0 <= i < c.members@.len() ==> c@[i].0 == c.members@[i].0@ && c@[i].1 == c.members@[i].1@,
        Claim::Null@ is Null,
        Claim::Bool(b)@ == ClaimView::Bool(b),
        Claim::Number(x, y)@ == ClaimView::Number(x, y),
        Claim::Text(s)@ == ClaimView::Text(s@),
        Claim::Object(names)@ == ClaimView::Object(texts(names@)),
        Claim::List(list)@ is List && Claim::List(list)@->List_0.len() == list@.len(),
        0 <= j < list@.len() ==> Claim::List(list)@->List_0[j] == text_opt(list@[j]),
{
}

/// A signed token by its parts.
pub proof fn law_signed_token_by_value(j: ParsedJws)
    ensures
        j@.alg == j.alg@,
        j@.kid == text_opt(j.kid),
        j@.signed_input == j.signed_input@,
        j@.signature == j.signature_bytes@,
        j@.payload == j.payload@,
{
}

/// Hints by their names.
pub proof fn law_hints_by_value(h: IdpHints, v: Seq<(&str, &str)>, i: int)
    ensures
        h@.login_hint == text_opt(h.login_hint),
        h@.prompt == text_opt(h.prompt),
        h@.max_age == text_opt(h.max_age),
        h@.acr_values == text_opt(h.acr_values),
        h@.ui_locales == text_opt(h.ui_locales),
        no_hints().login_hint is None && no_hints().prompt is None,
        no_hints().max_age is None && no_hints().acr_values is None,
        no_hints().ui_locales is None,
        str_pairs(v).len() == v.len(),
        0 <= i < v.len() ==> str_pairs(v)[i] == (v[i].0@, v[i].1@),
{
}

/// The secrets of a login, and the tokens that end it.
pub proof fn law_login_by_value(s: LoginSecrets, g: Grant, c: Claims, text: String)
    ensures
        s@.state == s.state@ && s@.nonce == s.nonce@ && s@.verifier == s.verifier@,
        g@.id_token == g.id_token@,
        g@.claims == g.claims@,
        g@.subject == g.subject@,
        g@.userinfo == g.userinfo@,
        g@.refresh_token == text_opt(g.refresh_token),
        UserInfo::Unavailable@ is Unavailable,
        UserInfo::Failed@ is Failed,
        UserInfo::Claims(c)@ == UserInfoView::Claims(c@),
        Exchange::Failed@ is Failed,
        Exchange::NoIdToken@ is NoIdToken,
        Exchange::InvalidIdToken@ is InvalidIdToken,
        Exchange::Granted(g)@ == ExchangeView::Granted(g@),
        UserCookie::NotIssued@ is NotIssued,
        UserCookie::Failed@ is Failed,
        UserCookie::Issued(text)@ == UserCookieView::Issued(text@),
        LogoutTarget::Session(text)@ == TargetView::Session(text@),
        LogoutTarget::Subject(text)@ == TargetView::Subject(text@),
{
}

/// Pending logins and live sessions by what they hold.
pub proof fn law_entries_by_value(s: StateEntry, r: RefreshEntry, key: Seq<u8>, e: BearerCacheEntry)
    ensures
        s@.pkce_verifier == s.pkce_verifier@,
        s@.nonce == s.nonce@,
        s@.return_to == s.return_to@,
        s@.created == s.created,
        r@.refresh_token == r.refresh_token@,
        r@.expires_at == r.expires_at,
        r@.id_token == r.id_token@,
        r@.subject == r.subject@,
        r@.idp_sid == text_opt(r.idp_sid),
        cached_entry(key, e).0 == key,
        cached_entry(key, e).1 == e.identity.username@,
        cached_entry(key, e).2 == texts(e.identity.groups@),
        cached_entry(key, e).3 == e.expires_at,
{
}

/// A provider by what is known of it.
pub proof fn law_provider_by_value(p: OidcProvider, k: Seq<char>)
    ensures
        p.client is None ==> p@.client is None,
        p.client matches Some(c) ==> p@.client == Some((c.issuer@, c.authorization_url@)),
        p@.end_session_url == text_opt(p.end_session_url),
        p@.revocation_url == text_opt(p.revocation_url),
        p.jwks is None ==> p@.jwks is None,
        p.jwks matches Some(v) ==> p@.jwks == Some(texts(v@)),
        p@.states.dom().contains(k) <==> p.states@.dom().contains(k),
        p.states@.dom().contains(k) ==> p@.states[k] == p.states@[k]@,
        p@.refreshes.dom().contains(k) <==> p.refreshes@.dom().contains(k),
        p.refreshes@.dom().contains(k) ==> p@.refreshes[k] == p.refreshes@[k]@,
        p@.seen_jtis == p.seen_jtis@,
        p@.tokens == cached(p.bearer_cache),
        p@.token_cap == cache_cap(p.bearer_cache),
{
}

/// Moments are told in nanoseconds.
pub proof fn law_moments(now: u64, secs: u64)
    ensures
        nanos(secs) == secs * 1_000_000_000,
        after(now, secs) == now + secs * 1_000_000_000,
{
}

/// Results by what they hold: what went well by value.
pub proof fn law_results_by_value(
    id: Identity,
    a: String,
    b: String,
    c: Option<String>,
    secs: u64,
    n: usize,
    t: LogoutTarget,
    s: StateEntry,
    j: ParsedJws,
)
    ensures
        count_view(Ok(n)) == Ok::<_, LogoutError>(n as int),
        target_view(Ok((t, a))) == Ok::<_, LogoutError>((t@, a@)),
        identity_view(Ok(id)) == Ok::<_, BearerError>(id@),
        claims_view(Ok((id, secs))) == Ok::<_, BearerError>((id@, secs)),
        wait_view(Some(secs)) == Some(secs as int) && wait_view(None) is None,
        jws_outcome(Ok(j)) == Ok::<_, JwsError>(j@),
        begun_view(Some((a, b))) == Some((a@, b@)) && begun_view(None) is None,
        taken_view(Ok(s)) == Ok::<_, LoginError>(s@),
        login_view(Ok((id, a, c))) == Ok::<_, LoginError>((id@, a@, text_opt(c))),
        token_view(Ok(a)) == Ok::<_, RefreshError>(a@),
        refresh_view(Ok((id, a))) == Ok::<_, RefreshError>((id@, a@)),
        pair_view(Some((a, b))) == Some((a@, b@)) && pair_view(None) is None,
{
}

/// Errors are told as they are.
pub proof fn law_errors_by_value(
    a: LogoutError,
    b: BearerError,
    c: JwsError,
    d: LoginError,
    e: RefreshError,
)
    ensures
        count_view(Err(a)) == Err::<int, _>(a),
        target_view(Err(a)) == Err::<(TargetView, Seq<char>), _>(a),
        identity_view(Err(b)) == Err::<IdentityView, _>(b),
        claims_view(Err(b)) == Err::<(IdentityView, u64), _>(b),
        jws_outcome(Err(c)) == Err::<JwsView, _>(c),
        taken_view(Err(d)) == Err::<StateView, _>(d),
        login_view(Err(d)) == Err::<(IdentityView, Seq<char>, Option<Seq<char>>), _>(d),
        token_view(Err(e)) == Err::<Seq<char>, _>(e),
        refresh_view(Err(e)) == Err::<(IdentityView, Seq<char>), _>(e),
{
}

/// Drawn secrets are 22, 22 and 43 characters of letters, digits, dashes and low lines.
pub proof fn law_drawn_secrets(s: SecretsView, i: int)
    requires
        secrets_drawn(s),
    ensures
        s.state.len() == 22 && s.nonce.len() == 22 && s.verifier.len() == 43,
        ({
            let fits = |c: char|
                'a' <= c <= 'z' || 'A' <= c <= 'Z' || '0' <= c <= '9' || c == '-' || c == '_';
            &&& 0 <= i < 22 ==> fits(s.state[i]) && fits(s.nonce[i])
            &&& 0 <= i < 43 ==> fits(s.verifier[i])
        }),
        43 <= encode_utf8(s.verifier).len() <= 128,
{
}

} // verus!
