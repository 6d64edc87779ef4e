//! Logging in: sending the browser to the provider, and taking up what the
//! provider answers when the browser comes back.
use crate::metrics::Metrics;
use crate::oidc::cache::{copy_strings, Identity, IdentityView};
use crate::oidc::claims::{
    claim_or, extract_groups_claim, extract_groups_claim_from_json, extract_optional_string_claim,
    extract_string_claim, filled_claim, groups_of, text_opt, texts, Claims, ClaimsView,
};
use crate::oidc::hints::{hint_pairs, str_pairs, IdpHints};
use crate::oidc::id_token::{id_claims, read_id_claims, subject_for, MAX_UNIX_SECS};
use crate::oidc::{
    after, moment_after, nanos, nanos_of, OidcConfig, OidcProvider, ProviderView, RefreshEntry,
    RefreshView, StateEntry, StateView,
};
use crate::strmap::{lemma_viewed_insert, lemma_viewed_remove, viewed};
use openidconnect::{
    AuthUrl, ClientId, CsrfToken, IssuerUrl, JsonWebKeySet, Nonce, PkceCodeChallenge,
    PkceCodeVerifier, RedirectUrl, Scope,
};
use vstd::prelude::*;
use vstd::utf8::encode_utf8;

verus! {

/// A text over the alphabet of URL-safe base64.
pub open spec fn is_base64url(s: Seq<char>) -> bool {
    forall|i: int|
        0 <= i < s.len() ==> {
            let c = #[trigger] s[i];
            'a' <= c <= 'z' || 'A' <= c <= 'Z' || '0' <= c <= '9' || c == '-' || c == '_'
        }
}

/// `openidconnect::CsrfToken::new_random`: sixteen random bytes in URL-safe
/// base64.
#[verifier::external_body]
pub(crate) fn random_token() -> (r: String)
    ensures
        r@.len() == 22,
        is_base64url(r@),
{
    CsrfToken::new_random().secret().clone()
}

/// `openidconnect::Nonce::new_random`: sixteen random bytes in URL-safe base64.
#[verifier::external_body]
fn random_nonce() -> (r: String)
    ensures
        r@.len() == 22,
        is_base64url(r@),
{
    Nonce::new_random().secret().clone()
}

/// `openidconnect::PkceCodeChallenge::new_random_sha256`, its verifier: 32
/// random bytes in URL-safe base64.
#[verifier::external_body]
fn random_verifier() -> (r: String)
    ensures
        r@.len() == 43,
        is_base64url(r@),
        encode_utf8(r@).len() == 43,
{
    PkceCodeChallenge::new_random_sha256().1.secret().clone()
}

/// The address of a login at the provider, where the addresses that it is made
/// of are addresses.
pub uninterp spec fn authorize_url(
    issuer: Seq<char>,
    authorization_url: Seq<char>,
    client_id: Seq<char>,
    redirect_uri: Seq<char>,
    scopes: Seq<Seq<char>>,
    params: Seq<(Seq<char>, Seq<char>)>,
    state: Seq<char>,
    nonce: Seq<char>,
    verifier: Seq<char>,
) -> Option<Seq<char>>;

/// `openidconnect`'s `Client::authorize_url` for the authorization-code flow,
/// with the given scopes, parameters, state and nonce and the SHA-256 challenge
/// of the verifier: the address of the login. The verifier's length is one that
/// the challenge is defined for; others make it panic.
#[verifier::external_body]
fn authorize_link(
    issuer: String,
    authorization_url: String,
    id: String,
    redirect: String,
    scopes: Vec<String>,
    params: Vec<(&str, &str)>,
    state: String,
    nonce: String,
    verifier: String,
) -> (r: Option<String>)
    requires
        43 <= encode_utf8(verifier@).len() <= 128,
    ensures
        text_opt(r) == authorize_url(
            issuer@,
            authorization_url@,
            id@,
            redirect@,
            texts(scopes@),
            str_pairs(params@),
            state@,
            nonce@,
            verifier@,
        ),
{
    let issuer = IssuerUrl::new(issuer).ok()?;
    let auth = AuthUrl::new(authorization_url).ok()?;
    let client = openidconnect::core::CoreClient::new(ClientId::new(id), None, issuer, auth, None, None, JsonWebKeySet::new(vec![]))
        .set_redirect_uri(RedirectUrl::new(redirect).ok()?);
    let req = client.authorize_url(openidconnect::core::CoreAuthenticationFlow::AuthorizationCode, || CsrfToken::new(state), || Nonce::new(nonce));
    let req = params.into_iter().fold(req, |r, (k, v)| r.add_extra_param(k, v))
        .add_scopes(scopes.into_iter().map(Scope::new));
    let code = PkceCodeChallenge::from_code_verifier_sha256(&PkceCodeVerifier::new(verifier));
    Some(req.set_pkce_challenge(code).url().0.into())
}

/// The secrets of one login.
pub struct LoginSecrets {
    pub state: String,
    pub nonce: String,
    pub verifier: String,
}

/// The secrets of one login, by value.
pub struct SecretsView {
    pub state: Seq<char>,
    pub nonce: Seq<char>,
    pub verifier: Seq<char>,
}

impl View for LoginSecrets {
    type V = SecretsView;

    open spec fn view(&self) -> SecretsView {
        SecretsView { state: self.state@, nonce: self.nonce@, verifier: self.verifier@ }
    }
}

/// The verifier has a length that the challenge is defined for.
pub open spec fn secrets_fit(s: SecretsView) -> bool {
    43 <= encode_utf8(s.verifier).len() <= 128
}

/// Secrets as they are drawn: sixteen bytes for the state and for the nonce, and 32
/// for the verifier, in URL-safe base64.
pub open spec fn secrets_drawn(s: SecretsView) -> bool {
    &&& secrets_fit(s)
    &&& s.state.len() == 22 && is_base64url(s.state)
    &&& s.nonce.len() == 22 && is_base64url(s.nonce)
    &&& s.verifier.len() == 43 && is_base64url(s.verifier)
}

impl LoginSecrets {
    /// Fresh secrets.
    pub fn fresh() -> (r: LoginSecrets)
        ensures
            secrets_drawn(r@),
    {
        LoginSecrets { state: random_token(), nonce: random_nonce(), verifier: random_verifier() }
    }
}

/// The parameters that name the resources which a token is for.
pub open spec fn resource_params(resources: Seq<Seq<char>>) -> Seq<(Seq<char>, Seq<char>)> {
    Seq::new(resources.len(), |i: int| ("resource"@, resources[i]))
}

/// The parameters of a login beyond the standard ones: the resources that the
/// token is for, then the hints.
pub open spec fn login_params(
    resources: Seq<Seq<char>>,
    hints: Seq<(Seq<char>, Seq<char>)>,
) -> Seq<(Seq<char>, Seq<char>)> {
    resource_params(resources) + hints
}

/// The address of a login at a provider whose documents were read.
pub open spec fn login_url(
    cfg: OidcConfig,
    client: (Seq<char>, Seq<char>),
    hints: Seq<(Seq<char>, Seq<char>)>,
    s: SecretsView,
) -> Option<Seq<char>> {
    authorize_url(
        client.0,
        client.1,
        cfg.client_id@,
        cfg.redirect_uri@,
        texts(cfg.scopes@),
        login_params(texts(cfg.resources@), hints),
        s.state,
        s.nonce,
        s.verifier,
    )
}

/// The pending login that a login with some secrets leaves.
pub open spec fn pending(s: SecretsView, return_to: Seq<char>, now: u64) -> StateView {
    StateView { pkce_verifier: s.verifier, nonce: s.nonce, return_to, created: now }
}

/// What beginning a login with some secrets returns, and what it leaves: the
/// address and the state under which the login waits. Nothing happens before
/// the provider's documents were read.
pub open spec fn login_begun(
    cfg: OidcConfig,
    p: ProviderView,
    return_to: Seq<char>,
    hints: Seq<(Seq<char>, Seq<char>)>,
    s: SecretsView,
    now: u64,
) -> (Option<(Seq<char>, Seq<char>)>, ProviderView) {
    match p.client {
        None => (None, p),
        Some(client) => match login_url(cfg, client, hints, s) {
            None => (None, p),
            Some(url) => (
                Some((url, s.state)),
                ProviderView {
                    states: p.states.insert(s.state, pending(s, return_to, now)),
                    ..p
                },
            ),
        },
    }
}

/// A begun login, by value.
pub open spec fn begun_view(r: Option<(String, String)>) -> Option<(Seq<char>, Seq<char>)> {
    match r {
        Some((url, state)) => Some((url@, state@)),
        None => None,
    }
}

/// Why a login failed.
#[derive(Clone, Copy, Debug, PartialEq, Eq, Structural)]
pub enum LoginError {
    /// The provider's documents were not read yet.
    NotReady,
    /// No login waits under the state.
    UnknownState,
    /// The browser came back too late.
    StateExpired,
    /// The provider gave no tokens for the code.
    ExchangeFailed,
    /// The provider gave no ID token.
    NoIdToken,
    /// The ID token was not valid.
    InvalidIdToken,
}

impl LoginError {
    /// The error in words.
    pub open spec fn text(self) -> Seq<char> {
        match self {
            LoginError::NotReady => "OIDC provider not ready"@,
            LoginError::UnknownState => "unknown or expired OIDC state"@,
            LoginError::StateExpired => "OIDC state expired before callback"@,
            LoginError::ExchangeFailed => "OIDC token exchange failed"@,
            LoginError::NoIdToken => "IdP response did not include an id_token"@,
            LoginError::InvalidIdToken => "ID token validation failed"@,
        }
    }

    /// The error in words.
    pub fn message(self) -> (r: &'static str)
        ensures
            r@ == self.text(),
    {
        match self {
            LoginError::NotReady => "OIDC provider not ready",
            LoginError::UnknownState => "unknown or expired OIDC state",
            LoginError::StateExpired => "OIDC state expired before callback",
            LoginError::ExchangeFailed => "OIDC token exchange failed",
            LoginError::NoIdToken => "IdP response did not include an id_token",
            LoginError::InvalidIdToken => "ID token validation failed",
        }
    }
}

/// Whether a pending login has waited too long.
pub open spec fn state_expired(created: u64, now: u64, ttl_secs: u64) -> bool {
    now - created > nanos(ttl_secs)
}

/// What a callback finds under a state, and what it leaves. The pending login
/// is gone either way, so that a state serves once.
pub open spec fn state_taken(
    p: ProviderView,
    ttl_secs: u64,
    state: Seq<char>,
    now: u64,
) -> (Result<StateView, LoginError>, ProviderView) {
    if p.client is None {
        (Err(LoginError::NotReady), p)
    } else if !p.states.dom().contains(state) {
        (Err(LoginError::UnknownState), p)
    } else {
        let left = ProviderView { states: p.states.remove(state), ..p };
        if state_expired(p.states[state].created, now, ttl_secs) {
            (Err(LoginError::StateExpired), left)
        } else {
            (Ok(p.states[state]), left)
        }
    }
}

/// A found login, by value.
pub open spec fn taken_view(r: Result<StateEntry, LoginError>) -> Result<StateView, LoginError> {
    match r {
        Ok(e) => Ok(e@),
        Err(e) => Err(e),
    }
}

/// What the provider's user-info endpoint answered.
pub enum UserInfo {
    /// The provider has no such endpoint, or the answer was of no use.
    Unavailable,
    /// The request failed.
    Failed,
    Claims(Claims),
}

/// The user-info answer, by value.
pub enum UserInfoView {
    Unavailable,
    Failed,
    Claims(ClaimsView),
}

impl View for UserInfo {
    type V = UserInfoView;

    open spec fn view(&self) -> UserInfoView {
        match self {
            UserInfo::Unavailable => UserInfoView::Unavailable,
            UserInfo::Failed => UserInfoView::Failed,
            UserInfo::Claims(c) => UserInfoView::Claims(c@),
        }
    }
}

/// Who the user is, given what the ID token says and what the user-info
/// endpoint says: the latter wins where it says something.
pub open spec fn merged(cfg: OidcConfig, info: UserInfoView, id: IdentityView) -> IdentityView {
    match info {
        UserInfoView::Claims(c) if cfg.userinfo => {
            let groups = groups_of(c, cfg.groups_claim@);
            IdentityView {
                username: claim_or(c, cfg.username_claim@, id.username),
                groups: if groups.len() == 0 {
                    id.groups
                } else {
                    groups
                },
            }
        },
        _ => id,
    }
}

/// What asking for user info adds to the counters.
pub open spec fn info_counted(m: Metrics, cfg: OidcConfig, info: UserInfoView) -> Metrics {
    if cfg.userinfo && info is Failed {
        Metrics { oidc_userinfo_failures: m.oidc_userinfo_failures.wrapping_add(1), ..m }
    } else {
        m
    }
}

/// The tokens that the provider gave, the ID token with its validated claims.
pub struct Grant {
    pub id_token: String,
    pub claims: Claims,
    pub subject: String,
    pub userinfo: UserInfo,
    pub refresh_token: Option<String>,
}

/// The tokens that the provider gave, by value.
pub struct GrantView {
    pub id_token: Seq<char>,
    pub claims: ClaimsView,
    pub subject: Seq<char>,
    pub userinfo: UserInfoView,
    pub refresh_token: Option<Seq<char>>,
}

impl View for Grant {
    type V = GrantView;

    open spec fn view(&self) -> GrantView {
        GrantView {
            id_token: self.id_token@,
            claims: self.claims@,
            subject: self.subject@,
            userinfo: self.userinfo@,
            refresh_token: text_opt(self.refresh_token),
        }
    }
}

/// The tokens that the provider gave, the ID token as its text. Nothing in it has
/// been validated.
pub struct Tokens {
    pub id_token: String,
    pub userinfo: UserInfo,
    pub refresh_token: Option<String>,
}

/// The provider's answer to a request for tokens.
pub enum TokenReply {
    /// It gave none.
    Failed,
    /// It gave tokens, but no ID token.
    NoIdToken,
    Tokens(Tokens),
}

/// What an answer to a request for tokens amounts to: the claims and the subject of
/// its ID token, where that is valid for this client.
pub open spec fn exchange_of(
    cfg: OidcConfig,
    p: ProviderView,
    reply: TokenReply,
    nonce: Option<Seq<char>>,
    unix_now: u64,
) -> ExchangeView {
    match reply {
        TokenReply::Failed => ExchangeView::Failed,
        TokenReply::NoIdToken => ExchangeView::NoIdToken,
        TokenReply::Tokens(t) => match subject_for(cfg, p, t.id_token@, nonce, unix_now) {
            None => ExchangeView::InvalidIdToken,
            Some(subject) => ExchangeView::Granted(
                GrantView {
                    id_token: t.id_token@,
                    claims: id_claims(t.id_token@),
                    subject,
                    userinfo: t.userinfo@,
                    refresh_token: text_opt(t.refresh_token),
                },
            ),
        },
    }
}

/// What an answer to a request for tokens amounts to.
pub enum Exchange {
    /// It gave none.
    Failed,
    /// It gave tokens, but no ID token.
    NoIdToken,
    /// It gave an ID token that is not valid.
    InvalidIdToken,
    Granted(Grant),
}

/// What an answer to a request for tokens amounts to, by value.
pub enum ExchangeView {
    Failed,
    NoIdToken,
    InvalidIdToken,
    Granted(GrantView),
}

impl View for Exchange {
    type V = ExchangeView;

    open spec fn view(&self) -> ExchangeView {
        match self {
            Exchange::Failed => ExchangeView::Failed,
            Exchange::NoIdToken => ExchangeView::NoIdToken,
            Exchange::InvalidIdToken => ExchangeView::InvalidIdToken,
            Exchange::Granted(g) => ExchangeView::Granted(g@),
        }
    }
}

/// Who the claims of an ID token speak of.
pub open spec fn id_token_identity(cfg: OidcConfig, g: GrantView) -> IdentityView {
    IdentityView {
        username: claim_or(g.claims, cfg.username_claim@, g.subject),
        groups: groups_of(g.claims, cfg.groups_claim@),
    }
}

/// Who the tokens speak of.
pub open spec fn granted_identity(cfg: OidcConfig, g: GrantView) -> IdentityView {
    merged(cfg, g.userinfo, id_token_identity(cfg, g))
}

/// The session that some tokens make, with a refresh token.
pub open spec fn session_of(cfg: OidcConfig, g: GrantView, token: Seq<char>, now: u64) -> RefreshView {
    RefreshView {
        refresh_token: token,
        expires_at: after(now, cfg.refresh_ttl_secs),
        id_token: g.id_token,
        subject: g.subject,
        idp_sid: filled_claim(g.claims, "sid"@),
    }
}

/// What a finished login returns: who the user is, where the browser goes, and
/// the name of the session where one was made.
pub open spec fn login_result(
    cfg: OidcConfig,
    return_to: Seq<char>,
    x: ExchangeView,
    sid: Seq<char>,
) -> Result<(IdentityView, Seq<char>, Option<Seq<char>>), LoginError> {
    match x {
        ExchangeView::Failed => Err(LoginError::ExchangeFailed),
        ExchangeView::NoIdToken => Err(LoginError::NoIdToken),
        ExchangeView::InvalidIdToken => Err(LoginError::InvalidIdToken),
        ExchangeView::Granted(g) => Ok(
            (
                granted_identity(cfg, g),
                return_to,
                if cfg.refresh && g.refresh_token is Some {
                    Some(sid)
                } else {
                    None
                },
            ),
        ),
    }
}

/// What a finished login leaves: a session where refreshing is enabled and the
/// provider gave a refresh token.
pub open spec fn login_left(
    cfg: OidcConfig,
    p: ProviderView,
    x: ExchangeView,
    sid: Seq<char>,
    now: u64,
) -> ProviderView {
    match x {
        ExchangeView::Granted(g) => match g.refresh_token {
            Some(token) if cfg.refresh => ProviderView {
                refreshes: p.refreshes.insert(sid, session_of(cfg, g, token, now)),
                ..p
            },
            _ => p,
        },
        _ => p,
    }
}

/// What the answer to a request for tokens adds to the counters.
pub open spec fn exchange_counted(m: Metrics, cfg: OidcConfig, x: ExchangeView) -> Metrics {
    match x {
        ExchangeView::Granted(g) => info_counted(m, cfg, g.userinfo),
        _ => m,
    }
}

/// A finished login, by value.
pub open spec fn login_view(
    r: Result<(Identity, String, Option<String>), LoginError>,
) -> Result<(IdentityView, Seq<char>, Option<Seq<char>>), LoginError> {
    match r {
        Ok((id, to, sid)) => Ok((id@, to@, text_opt(sid))),
        Err(e) => Err(e),
    }
}

fn push_resources<'a>(resources: &'a Vec<String>) -> (r: Vec<(&'a str, &'a str)>)
    ensures
        str_pairs(r@) == resource_params(texts(resources@)),
{
    let mut out: Vec<(&'a str, &'a str)> = Vec::new();
    let n: usize = resources.len();
    let mut i: usize = 0;
    while i < n
        invariant
            n == resources@.len(),
            i <= n,
            out@.len() == i,
            forall|j: int|
                0 <= j < i ==> (#[trigger] out@[j]).0@ == "resource"@ && out@[j].1@
                    == resources@[j]@,
        decreases n - i,
    {
        out.push(("resource", resources[i].as_str()));
        i = i + 1;
    }
    assert(str_pairs(out@) =~= resource_params(texts(resources@)));
    out
}

fn all_params<'a>(
    resources: &'a Vec<String>,
    hints: &'a IdpHints,
) -> (r: Vec<(&'a str, &'a str)>)
    ensures
        str_pairs(r@) == login_params(texts(resources@), hint_pairs(hints@)),
{
    let mut out = push_resources(resources);
    let ghost first = str_pairs(out@);
    let more = hints.pairs();
    let m: usize = more.len();
    let mut k: usize = 0;
    assert(str_pairs(more@).take(0) =~= Seq::empty());
    while k < m
        invariant
            m == more@.len(),
            k <= m,
            str_pairs(out@) =~= first + str_pairs(more@).take(k as int),
        decreases m - k,
    {
        let ghost before = out@;
        out.push((more[k].0, more[k].1));
        proof {
            assert(str_pairs(more@)[k as int] == (more@[k as int].0@, more@[k as int].1@));
            assert(str_pairs(out@) =~= str_pairs(before).push(str_pairs(more@)[k as int]));
            assert(str_pairs(more@).take(k + 1) =~= str_pairs(more@).take(k as int).push(
                str_pairs(more@)[k as int],
            ));
        }
        k = k + 1;
    }
    assert(str_pairs(more@).take(m as int) =~= str_pairs(more@));
    out
}

/// Who the user is, given what the ID token says and what the user-info
/// endpoint says: the latter wins where it says something.
pub fn merge_userinfo(
    cfg: &OidcConfig,
    info: &UserInfo,
    id: Identity,
    metrics: &mut Metrics,
) -> (r: Identity)
    ensures
        r@ == merged(*cfg, info@, id@),
        *final(metrics) == info_counted(*old(metrics), *cfg, info@),
{
    if !cfg.userinfo {
        return id;
    }
    match info {
        UserInfo::Unavailable => id,
        UserInfo::Failed => {
            metrics.oidc_userinfo_failures = metrics.oidc_userinfo_failures.wrapping_add(1);
            id
        },
        UserInfo::Claims(c) => {
            let username = extract_string_claim(
                cfg.username_claim.as_str(),
                c,
                id.username.as_str(),
            );
            let groups = extract_groups_claim_from_json(cfg.groups_claim.as_str(), c);
            assert(texts(groups@).len() == groups@.len());
            if groups.len() == 0 {
                Identity { username, groups: id.groups }
            } else {
                Identity { username, groups }
            }
        },
    }
}

/// Who the tokens speak of.
pub(crate) fn identity_of(cfg: &OidcConfig, g: &Grant, metrics: &mut Metrics) -> (r: Identity)
    ensures
        r@ == granted_identity(*cfg, g@),
        *final(metrics) == info_counted(*old(metrics), *cfg, g@.userinfo),
{
    let id = Identity {
        username: extract_string_claim(
            cfg.username_claim.as_str(),
            &g.claims,
            g.subject.as_str(),
        ),
        groups: extract_groups_claim(cfg.groups_claim.as_str(), &g.claims),
    };
    merge_userinfo(cfg, &g.userinfo, id, metrics)
}

/// The session that some tokens make, with a refresh token.
pub(crate) fn new_session(cfg: &OidcConfig, g: Grant, token: String, now: u64) -> (r: RefreshEntry)
    ensures
        r@ == session_of(*cfg, g@, token@, now),
{
    let idp_sid = extract_optional_string_claim("sid", &g.claims);
    RefreshEntry {
        refresh_token: token,
        expires_at: moment_after(now, cfg.refresh_ttl_secs),
        id_token: g.id_token,
        subject: g.subject,
        idp_sid,
    }
}

impl OidcProvider {
    /// The parameters that an exchange of a code or of a refresh token carries
    /// beyond the standard ones: the resources that the token is for.
    pub fn exchange_params(&self) -> (r: Vec<(&str, &str)>)
        ensures
            str_pairs(r@) == resource_params(texts(self.cfg.resources@)),
    {
        push_resources(&self.cfg.resources)
    }

    /// Begins a login with given secrets: where to send the browser, and the
    /// state under which the login waits.
    pub fn begin_login_with(
        &mut self,
        return_to: String,
        hints: IdpHints,
        secrets: LoginSecrets,
        now: u64,
    ) -> (r: Option<(String, String)>)
        requires
            secrets_fit(secrets@),
        ensures
            (begun_view(r), final(self)@) == login_begun(
                old(self).cfg,
                old(self)@,
                return_to@,
                hint_pairs(hints@),
                secrets@,
                now,
            ),
            final(self).cfg == old(self).cfg,
    {
        let url = match &self.client {
            None => {
                return None;
            },
            Some(c) => {
                let params = all_params(&self.cfg.resources, &hints);
                authorize_link(
                    c.issuer.clone(),
                    c.authorization_url.clone(),
                    self.cfg.client_id.clone(),
                    self.cfg.redirect_uri.clone(),
                    copy_strings(&self.cfg.scopes),
                    params,
                    secrets.state.clone(),
                    secrets.nonce.clone(),
                    secrets.verifier.clone(),
                )
            },
        };
        match url {
            None => None,
            Some(url) => {
                let state = secrets.state.clone();
                let entry = StateEntry {
                    pkce_verifier: secrets.verifier,
                    nonce: secrets.nonce,
                    return_to,
                    created: now,
                };
                proof {
                    lemma_viewed_insert(self.states@, state@, entry);
                }
                self.states.insert(secrets.state, entry);
                Some((url, state))
            },
        }
    }

    /// Begins a login with fresh secrets: where to send the browser, and the
    /// state under which the login waits.
    pub fn begin_login(&mut self, return_to: String, hints: IdpHints, now: u64) -> (r: Option<
        (String, String),
    >)
        ensures
            exists|s: SecretsView| #[trigger]
                secrets_drawn(s) && (begun_view(r), final(self)@) == login_begun(
                    old(self).cfg,
                    old(self)@,
                    return_to@,
                    hint_pairs(hints@),
                    s,
                    now,
                ),
            final(self).cfg == old(self).cfg,
            r matches Some((_, state)) ==> state@.len() == 22 && is_base64url(state@),
    {
        let secrets = LoginSecrets::fresh();
        let ghost s = secrets@;
        let r = self.begin_login_with(return_to, hints, secrets, now);
        assert(secrets_drawn(s));
        r
    }

    /// Takes the login that waits under a state, when the browser comes back.
    pub fn take_login(&mut self, state_id: &str, now: u64) -> (r: Result<StateEntry, LoginError>)
        ensures
            (taken_view(r), final(self)@) == state_taken(
                old(self)@,
                old(self).cfg.state_ttl_secs,
                state_id@,
                now,
            ),
            final(self).cfg == old(self).cfg,
    {
        if self.client.is_none() {
            return Err(LoginError::NotReady);
        }
        proof {
            lemma_viewed_remove(self.states@, state_id@);
        }
        let ghost before = self.states@;
        match self.states.remove(state_id) {
            None => {
                assert(self.states@ =~= before);
                Err(LoginError::UnknownState)
            },
            Some(e) => {
                assert(viewed(before)[state_id@] == e@);
                if now > e.created && (now - e.created) as u128 > nanos_of(
                    self.cfg.state_ttl_secs,
                ) {
                    Err(LoginError::StateExpired)
                } else {
                    Ok(e)
                }
            },
        }
    }

    /// Finishes a login with a given name for the session: takes up the tokens
    /// that the provider gave for the code.
    pub fn complete_login_with(
        &mut self,
        login: StateEntry,
        exchange: Exchange,
        sid: String,
        now: u64,
        metrics: &mut Metrics,
    ) -> (r: Result<(Identity, String, Option<String>), LoginError>)
        ensures
            login_view(r) == login_result(old(self).cfg, login@.return_to, exchange@, sid@),
            final(self)@ == login_left(old(self).cfg, old(self)@, exchange@, sid@, now),
            final(self).cfg == old(self).cfg,
            *final(metrics) == exchange_counted(*old(metrics), old(self).cfg, exchange@),
    {
        match exchange {
            Exchange::Failed => Err(LoginError::ExchangeFailed),
            Exchange::NoIdToken => Err(LoginError::NoIdToken),
            Exchange::InvalidIdToken => Err(LoginError::InvalidIdToken),
            Exchange::Granted(g) => {
                let id = identity_of(&self.cfg, &g, metrics);
                let token = match &g.refresh_token {
                    Some(t) => if self.cfg.refresh {
                        Some(t.clone())
                    } else {
                        None
                    },
                    None => None,
                };
                match token {
                    Some(t) => {
                        let session = new_session(&self.cfg, g, t, now);
                        proof {
                            lemma_viewed_insert(self.refreshes@, sid@, session);
                        }
                        let name = sid.clone();
                        self.refreshes.insert(sid, session);
                        Ok((id, login.return_to, Some(name)))
                    },
                    None => Ok((id, login.return_to, None)),
                }
            },
        }
    }

    /// Validates the ID token in an answer to a request for tokens. A login asks for
    /// its nonce, and a refresh for none.
    pub fn take_reply(&self, reply: TokenReply, nonce: Option<&str>, unix_now: u64) -> (r: Exchange)
        requires
            unix_now < MAX_UNIX_SECS,
        ensures
            r@ == exchange_of(
                self.cfg,
                self@,
                reply,
                match nonce {
                    Some(n) => Some(n@),
                    None => None,
                },
                unix_now,
            ),
    {
        match reply {
            TokenReply::Failed => Exchange::Failed,
            TokenReply::NoIdToken => Exchange::NoIdToken,
            TokenReply::Tokens(t) => match self.check_id_token(t.id_token.as_str(), nonce, unix_now) {
                None => Exchange::InvalidIdToken,
                Some(subject) => {
                    let claims = read_id_claims(t.id_token.as_str());
                    Exchange::Granted(
                        Grant {
                            id_token: t.id_token,
                            claims,
                            subject,
                            userinfo: t.userinfo,
                            refresh_token: t.refresh_token,
                        },
                    )
                },
            },
        }
    }

    /// Finishes a login: validates the ID token that the provider gave for the code,
    /// with the nonce of the login, takes up the tokens, and names the session that
    /// they make, if they make one.
    pub fn complete_login(
        &mut self,
        login: StateEntry,
        reply: TokenReply,
        now: u64,
        unix_now: u64,
        metrics: &mut Metrics,
    ) -> (r: Result<(Identity, String, Option<String>), LoginError>)
        requires
            unix_now < MAX_UNIX_SECS,
        ensures
            ({
                let x = exchange_of(
                    old(self).cfg,
                    old(self)@,
                    reply,
                    Some(login@.nonce),
                    unix_now,
                );
                &&& exists|sid: Seq<char>|
                    sid.len() == 22 && is_base64url(sid) && login_view(r) == login_result(
                        old(self).cfg,
                        login@.return_to,
                        x,
                        sid,
                    ) && final(self)@ == #[trigger] login_left(
                        old(self).cfg,
                        old(self)@,
                        x,
                        sid,
                        now,
                    )
                &&& *final(metrics) == exchange_counted(*old(metrics), old(self).cfg, x)
            }),
            final(self).cfg == old(self).cfg,
    {
        let exchange = self.take_reply(reply, Some(login.nonce.as_str()), unix_now);
        let sid = random_token();
        self.complete_login_with(login, exchange, sid, now, metrics)
    }
}

} // verus!
