//! Single sign-on with an OpenID provider. The provider's state machine is
//! here: what a request to it, or an answer from it, does to the pending logins
//! and the live sessions. Talking to the provider is left to the caller.
//!
//! Moments are nanoseconds on a clock that never runs backwards; calendar time
//! is in seconds since 1970.
pub mod backchannel;
pub mod bearer;
pub mod cache;
pub mod claims;
pub mod course;
pub mod discovery;
pub mod hints;
pub mod id_token;
pub mod jws;
pub mod laws;
pub mod login;
pub mod routes;
pub mod session;
pub mod token;
pub mod values;
pub mod who;

use crate::oidc::cache::{cache_cap, cache_new, cached, BearerCacheEntry, CachedToken};
use crate::oidc::claims::{text_opt, texts};
use crate::strmap::{viewed, StrMap};
use crate::text::{chars_of, string_of};
use vstd::prelude::*;

verus! {

/// How sign-on is set up.
pub struct OidcConfig {
    pub issuer: String,
    pub client_id: String,
    pub client_secret: Option<String>,
    pub redirect_uri: String,
    pub scopes: Vec<String>,
    pub username_claim: String,
    pub groups_claim: String,
    pub login_path: String,
    pub callback_path: String,
    pub state_ttl_secs: u64,
    pub refresh: bool,
    pub refresh_ttl_secs: u64,
    pub refresh_cookie_name: String,
    pub logout_path: String,
    pub post_logout_uri: String,
    pub idp_logout: bool,
    pub userinfo: bool,
    /// Seconds between two looks at the provider's documents; 0 for one look
    /// only.
    pub discovery_refresh_secs: u64,
    pub discovery_retry: bool,
    pub backchannel_logout_enabled: bool,
    pub backchannel_logout_path: String,
    pub backchannel_max_iat_skew_secs: u64,
    pub backchannel_jti_ttl_secs: u64,
    pub bearer: bool,
    pub bearer_audiences: Vec<String>,
    pub bearer_cache_size: usize,
    pub revoke_on_logout: bool,
    pub require_iss: bool,
    pub resources: Vec<String>,
}

/// A login that waits for the provider to send the browser back.
pub struct StateEntry {
    pub pkce_verifier: String,
    pub nonce: String,
    pub return_to: String,
    pub created: u64,
}

/// A pending login, by value.
pub struct StateView {
    pub pkce_verifier: Seq<char>,
    pub nonce: Seq<char>,
    pub return_to: Seq<char>,
    pub created: u64,
}

impl View for StateEntry {
    type V = StateView;

    open spec fn view(&self) -> StateView {
        StateView {
            pkce_verifier: self.pkce_verifier@,
            nonce: self.nonce@,
            return_to: self.return_to@,
            created: self.created,
        }
    }
}

/// A live session that the provider's refresh token keeps going.
pub struct RefreshEntry {
    pub refresh_token: String,
    pub expires_at: u128,
    /// The ID token as it was received, sent back at logout.
    pub id_token: String,
    /// The provider's name for the user.
    pub subject: String,
    /// The provider's name for the session.
    pub idp_sid: Option<String>,
}

/// A live session, by value.
pub struct RefreshView {
    pub refresh_token: Seq<char>,
    pub expires_at: u128,
    pub id_token: Seq<char>,
    pub subject: Seq<char>,
    pub idp_sid: Option<Seq<char>>,
}

impl View for RefreshEntry {
    type V = RefreshView;

    open spec fn view(&self) -> RefreshView {
        RefreshView {
            refresh_token: self.refresh_token@,
            expires_at: self.expires_at,
            id_token: self.id_token@,
            subject: self.subject@,
            idp_sid: text_opt(self.idp_sid),
        }
    }
}

/// What a look at the provider's documents found.
pub struct Discovered {
    /// The issuer as the provider gives it.
    pub issuer: String,
    pub authorization_url: String,
    pub end_session_url: Option<String>,
    pub revocation_url: Option<String>,
    /// The provider's keys, each as its JSON text.
    pub jwks: Vec<String>,
}

/// The address that a client of the provider was built for.
pub struct OidcClient {
    pub issuer: String,
    pub authorization_url: String,
}

/// The client, by value: issuer and authorization address.
pub open spec fn client_view(c: Option<OidcClient>) -> Option<(Seq<char>, Seq<char>)> {
    match c {
        Some(c) => Some((c.issuer@, c.authorization_url@)),
        None => None,
    }
}

/// The keys, by value.
pub open spec fn jwks_view(j: Option<Vec<String>>) -> Option<Seq<Seq<char>>> {
    match j {
        Some(v) => Some(texts(v@)),
        None => None,
    }
}

/// The OpenID provider as this server knows it: its set-up, what was
/// discovered, the pending logins, the live sessions, the logout tokens that
/// were seen and the bearer tokens that were validated.
pub struct OidcProvider {
    pub cfg: OidcConfig,
    pub client: Option<OidcClient>,
    pub end_session_url: Option<String>,
    pub revocation_url: Option<String>,
    pub jwks: Option<Vec<String>>,
    pub states: StrMap<StateEntry>,
    pub refreshes: StrMap<RefreshEntry>,
    /// Logout tokens by their id, each with the moment it is forgotten.
    pub seen_jtis: StrMap<u128>,
    pub bearer_cache: lru::LruCache<[u8; 32], BearerCacheEntry>,
}

/// The state of a provider, by value.
pub struct ProviderView {
    pub client: Option<(Seq<char>, Seq<char>)>,
    pub end_session_url: Option<Seq<char>>,
    pub revocation_url: Option<Seq<char>>,
    pub jwks: Option<Seq<Seq<char>>>,
    pub states: Map<Seq<char>, StateView>,
    pub refreshes: Map<Seq<char>, RefreshView>,
    pub seen_jtis: Map<Seq<char>, u128>,
    pub tokens: Seq<CachedToken>,
    pub token_cap: nat,
}

impl View for OidcProvider {
    type V = ProviderView;

    open spec fn view(&self) -> ProviderView {
        ProviderView {
            client: client_view(self.client),
            end_session_url: text_opt(self.end_session_url),
            revocation_url: text_opt(self.revocation_url),
            jwks: jwks_view(self.jwks),
            states: viewed(self.states@),
            refreshes: viewed(self.refreshes@),
            seen_jtis: self.seen_jtis@,
            tokens: cached(self.bearer_cache),
            token_cap: cache_cap(self.bearer_cache),
        }
    }
}

/// A provider of which nothing is known yet.
pub open spec fn fresh_provider(cache_size: usize) -> ProviderView {
    ProviderView {
        client: None,
        end_session_url: None,
        revocation_url: None,
        jwks: None,
        states: Map::empty(),
        refreshes: Map::empty(),
        seen_jtis: Map::empty(),
        tokens: Seq::empty(),
        token_cap: if cache_size == 0 {
            1
        } else {
            cache_size as nat
        },
    }
}

/// Seconds as nanoseconds.
pub open spec fn nanos(secs: u64) -> int {
    secs * 1_000_000_000
}

/// A moment some seconds from now.
pub open spec fn after(now: u64, secs: u64) -> u128 {
    (now + nanos(secs)) as u128
}

/// Seconds as nanoseconds.
pub fn nanos_of(secs: u64) -> (r: u128)
    ensures
        r == nanos(secs),
{
    secs as u128 * 1_000_000_000
}

/// A moment some seconds from now.
pub fn moment_after(now: u64, secs: u64) -> (r: u128)
    ensures
        r == after(now, secs),
        r == now + nanos(secs),
{
    now as u128 + nanos_of(secs)
}

/// A text without the slashes at its end.
pub open spec fn slashless(s: Seq<char>) -> Seq<char>
    decreases s.len(),
{
    if s.len() > 0 && s.last() == '/' {
        slashless(s.drop_last())
    } else {
        s
    }
}

/// A text without the slashes at its end.
pub fn trim_slashes(s: &str) -> (r: String)
    ensures
        r@ == slashless(s@),
{
    let mut cs = chars_of(s);
    while cs.len() > 0 && cs[cs.len() - 1] == '/'
        invariant
            slashless(cs@) == slashless(s@),
        decreases cs@.len(),
    {
        let ghost before = cs@;
        let _c = cs.pop();
        assert(cs@ =~= before.drop_last());
    }
    string_of(cs.as_slice())
}

impl OidcProvider {
    /// A provider of which nothing is known yet.
    pub fn new(cfg: OidcConfig) -> (r: OidcProvider)
        ensures
            r.cfg == cfg,
            r@ == fresh_provider(cfg.bearer_cache_size),
    {
        let cap: usize = if cfg.bearer_cache_size == 0 {
            1
        } else {
            cfg.bearer_cache_size
        };
        let r = OidcProvider {
            cfg,
            client: None,
            end_session_url: None,
            revocation_url: None,
            jwks: None,
            states: StrMap::new(),
            refreshes: StrMap::new(),
            seen_jtis: StrMap::new(),
            bearer_cache: cache_new(cap),
        };
        assert(r@.states =~= Map::empty());
        assert(r@.refreshes =~= Map::empty());
        r
    }

    /// The client, once the provider's documents were read.
    pub fn client(&self) -> (r: Option<&OidcClient>)
        ensures
            match r {
                Some(c) => self.client == Some(*c),
                None => self.client is None,
            },
    {
        self.client.as_ref()
    }

    /// Whether the provider's documents were read.
    pub fn is_ready(&self) -> (r: bool)
        ensures
            r == (self@.client is Some),
    {
        self.client.is_some()
    }

    /// Whether sessions are kept going by refresh tokens.
    pub fn refresh_enabled(&self) -> (r: bool)
        ensures
            r == self.cfg.refresh,
    {
        self.cfg.refresh
    }

    /// The cookie that carries the name of the session.
    pub fn refresh_cookie_name(&self) -> (r: &str)
        ensures
            r@ == self.cfg.refresh_cookie_name@,
    {
        self.cfg.refresh_cookie_name.as_str()
    }

    /// How long a session lasts without a refresh, in seconds.
    pub fn refresh_ttl_secs(&self) -> (r: u64)
        ensures
            r == self.cfg.refresh_ttl_secs,
    {
        self.cfg.refresh_ttl_secs
    }

    /// The path of the logout endpoint.
    pub fn logout_path(&self) -> (r: &str)
        ensures
            r@ == self.cfg.logout_path@,
    {
        self.cfg.logout_path.as_str()
    }

    /// Where the browser goes after a logout.
    pub fn post_logout_uri(&self) -> (r: &str)
        ensures
            r@ == self.cfg.post_logout_uri@,
    {
        self.cfg.post_logout_uri.as_str()
    }

    /// Whether a logout goes by way of the provider, where it has an address
    /// for that.
    pub fn idp_logout_enabled(&self) -> (r: bool)
        ensures
            r == self.cfg.idp_logout,
    {
        self.cfg.idp_logout
    }

    /// The provider's logout address.
    pub fn end_session_url(&self) -> (r: Option<&str>)
        ensures
            match r {
                Some(u) => self@.end_session_url == Some(u@),
                None => self@.end_session_url is None,
            },
    {
        match &self.end_session_url {
            Some(u) => Some(u.as_str()),
            None => None,
        }
    }

    /// The name under which the provider knows this server.
    pub fn client_id(&self) -> (r: &str)
        ensures
            r@ == self.cfg.client_id@,
    {
        self.cfg.client_id.as_str()
    }

    /// The issuer without slashes at its end.
    pub fn issuer(&self) -> (r: String)
        ensures
            r@ == slashless(self.cfg.issuer@),
    {
        trim_slashes(self.cfg.issuer.as_str())
    }

    /// Whether a callback must name the issuer.
    pub fn require_iss(&self) -> (r: bool)
        ensures
            r == self.cfg.require_iss,
    {
        self.cfg.require_iss
    }

    /// The path of the login endpoint.
    pub fn login_path(&self) -> (r: &str)
        ensures
            r@ == self.cfg.login_path@,
    {
        self.cfg.login_path.as_str()
    }

    /// The path that the provider sends the browser back to.
    pub fn callback_path(&self) -> (r: &str)
        ensures
            r@ == self.cfg.callback_path@,
    {
        self.cfg.callback_path.as_str()
    }

    /// How many sessions are live.
    pub fn refresh_count(&self) -> (r: usize)
        ensures
            r == self@.refreshes.len(),
    {
        let ghost m = self.refreshes@;
        assert(viewed(m).dom() =~= m.dom());
        self.refreshes.len()
    }
}

} // verus!
