//! Live sessions: keeping them going with refresh tokens, ending them at a
//! logout, and sweeping what has expired.
use crate::metrics::Metrics;
use crate::oidc::cache::{Identity, IdentityView};
use crate::oidc::login::{
    exchange_counted, exchange_of, granted_identity, identity_of, is_base64url, new_session, random_token,
    session_of, state_expired, Exchange, ExchangeView, GrantView, TokenReply,
};
use crate::oidc::id_token::MAX_UNIX_SECS;
use crate::oidc::{nanos, nanos_of, OidcConfig, OidcProvider, ProviderView, RefreshEntry,
    RefreshView, StateEntry, StateView};
use crate::strmap::{
    kept_by, lemma_viewed_insert, lemma_viewed_kept, lemma_viewed_remove, viewed, StrMap,
};
use vstd::prelude::*;

verus! {

/// Why a session could not be refreshed.
#[derive(Clone, Copy, Debug, PartialEq, Eq, Structural)]
pub enum RefreshError {
    /// The provider's documents were not read yet.
    NotReady,
    /// There is no such session.
    UnknownSession,
    /// The session lasted too long without a refresh.
    Expired,
    /// The provider gave no tokens for the refresh token.
    ExchangeFailed,
    /// The provider gave no ID token.
    NoIdToken,
    /// The ID token was not valid.
    InvalidIdToken,
}

impl RefreshError {
    /// The error in words.
    pub open spec fn text(self) -> Seq<char> {
        match self {
            RefreshError::NotReady => "OIDC provider not ready"@,
            RefreshError::UnknownSession => "unknown OIDC refresh session"@,
            RefreshError::Expired => "refresh session expired"@,
            RefreshError::ExchangeFailed => "OIDC refresh exchange failed"@,
            RefreshError::NoIdToken => "refresh response had no id_token"@,
            RefreshError::InvalidIdToken => "refreshed ID token validation failed"@,
        }
    }

    /// The error in words.
    pub fn message(self) -> (r: &'static str)
        ensures
            r@ == self.text(),
    {
        match self {
            RefreshError::NotReady => "OIDC provider not ready",
            RefreshError::UnknownSession => "unknown OIDC refresh session",
            RefreshError::Expired => "refresh session expired",
            RefreshError::ExchangeFailed => "OIDC refresh exchange failed",
            RefreshError::NoIdToken => "refresh response had no id_token",
            RefreshError::InvalidIdToken => "refreshed ID token validation failed",
        }
    }
}

/// The provider without a session.
pub open spec fn session_dropped(p: ProviderView, sid: Seq<char>) -> ProviderView {
    ProviderView { refreshes: p.refreshes.remove(sid), ..p }
}

/// What the first half of a refresh finds, and what it leaves: the refresh
/// token of a live session. A session that has expired is gone.
pub open spec fn refresh_begun(p: ProviderView, sid: Seq<char>, now: u64) -> (
    Result<Seq<char>, RefreshError>,
    ProviderView,
) {
    if p.client is None {
        (Err(RefreshError::NotReady), p)
    } else if !p.refreshes.dom().contains(sid) {
        (Err(RefreshError::UnknownSession), p)
    } else if now > p.refreshes[sid].expires_at {
        (Err(RefreshError::Expired), session_dropped(p, sid))
    } else {
        (Ok(p.refreshes[sid].refresh_token), p)
    }
}

/// A found refresh token, by value.
pub open spec fn token_view(r: Result<String, RefreshError>) -> Result<Seq<char>, RefreshError> {
    match r {
        Ok(t) => Ok(t@),
        Err(e) => Err(e),
    }
}

/// What the second half of a refresh returns: who the user is, and the name of
/// the session, which is a new one where the provider gave a new refresh token.
pub open spec fn refresh_result(
    cfg: OidcConfig,
    sid: Seq<char>,
    x: ExchangeView,
    new_sid: Seq<char>,
) -> Result<(IdentityView, Seq<char>), RefreshError> {
    match x {
        ExchangeView::Failed => Err(RefreshError::ExchangeFailed),
        ExchangeView::NoIdToken => Err(RefreshError::NoIdToken),
        ExchangeView::InvalidIdToken => Err(RefreshError::InvalidIdToken),
        ExchangeView::Granted(g) => Ok(
            (
                granted_identity(cfg, g),
                if g.refresh_token is Some {
                    new_sid
                } else {
                    sid
                },
            ),
        ),
    }
}

/// The sessions after the provider gave tokens.
pub open spec fn sessions_granted(
    cfg: OidcConfig,
    m: Map<Seq<char>, RefreshView>,
    sid: Seq<char>,
    g: GrantView,
    new_sid: Seq<char>,
    now: u64,
) -> Map<Seq<char>, RefreshView> {
    match g.refresh_token {
        Some(token) => m.remove(sid).insert(new_sid, session_of(cfg, g, token, now)),
        None => if m.dom().contains(sid) {
            m.insert(sid, session_of(cfg, g, m[sid].refresh_token, now))
        } else {
            m
        },
    }
}

/// What the second half of a refresh leaves. Where the provider gave no tokens,
/// the session is gone; where it gave no valid ID token, nothing changes.
pub open spec fn refresh_left(
    cfg: OidcConfig,
    p: ProviderView,
    sid: Seq<char>,
    x: ExchangeView,
    new_sid: Seq<char>,
    now: u64,
) -> ProviderView {
    match x {
        ExchangeView::Failed => session_dropped(p, sid),
        ExchangeView::Granted(g) => ProviderView {
            refreshes: sessions_granted(cfg, p.refreshes, sid, g, new_sid, now),
            ..p
        },
        _ => p,
    }
}

/// A refreshed session, by value.
pub open spec fn refresh_view(r: Result<(Identity, String), RefreshError>) -> Result<
    (IdentityView, Seq<char>),
    RefreshError,
> {
    match r {
        Ok((id, sid)) => Ok((id@, sid@)),
        Err(e) => Err(e),
    }
}

/// What a logout finds under the name of a session: the ID token and the
/// refresh token.
pub open spec fn logout_session(p: ProviderView, sid: Seq<char>) -> Option<(Seq<char>, Seq<char>)> {
    if p.refreshes.dom().contains(sid) {
        Some((p.refreshes[sid].id_token, p.refreshes[sid].refresh_token))
    } else {
        None
    }
}

/// A pair of texts, by value.
pub open spec fn pair_view(r: Option<(String, String)>) -> Option<(Seq<char>, Seq<char>)> {
    match r {
        Some((a, b)) => Some((a@, b@)),
        None => None,
    }
}

/// Whether a refresh token is revoked at the provider: where that is enabled,
/// and the provider's documents were read and name an address for it.
pub open spec fn revocation_due(cfg: OidcConfig, p: ProviderView) -> bool {
    cfg.revoke_on_logout && p.client is Some && p.revocation_url is Some
}

/// How an attempt to revoke a token ended.
#[derive(Clone, Copy, Debug, PartialEq, Eq, Structural)]
pub enum Revocation {
    /// No request could be made.
    Skipped,
    Revoked,
    Failed,
}

/// What an attempt to revoke a token adds to the counters.
pub open spec fn revocation_counted(m: Metrics, r: Revocation) -> Metrics {
    match r {
        Revocation::Skipped => m,
        Revocation::Revoked => Metrics { oidc_revocations: m.oidc_revocations.wrapping_add(1), ..m },
        Revocation::Failed => Metrics {
            oidc_revocation_failures: m.oidc_revocation_failures.wrapping_add(1),
            ..m
        },
    }
}

/// Counts an attempt to revoke a token.
pub fn record_revocation(metrics: &mut Metrics, r: Revocation)
    ensures
        *final(metrics) == revocation_counted(*old(metrics), r),
{
    match r {
        Revocation::Skipped => {},
        Revocation::Revoked => {
            metrics.oidc_revocations = metrics.oidc_revocations.wrapping_add(1);
        },
        Revocation::Failed => {
            metrics.oidc_revocation_failures = metrics.oidc_revocation_failures.wrapping_add(1);
        },
    }
}

/// What a sweep leaves: the logins that have not waited too long, and the
/// sessions and the logout tokens whose time is not over.
pub open spec fn swept(p: ProviderView, ttl_secs: u64, now: u64) -> ProviderView {
    ProviderView {
        states: kept_by(p.states, |e: StateView| !state_expired(e.created, now, ttl_secs)),
        refreshes: kept_by(p.refreshes, |e: RefreshView| now <= e.expires_at),
        seen_jtis: kept_by(p.seen_jtis, |t: u128| now <= t),
        ..p
    }
}

/// Drops the logins that have waited too long.
fn sweep_states(states: &mut StrMap<StateEntry>, ttl_secs: u64, now: u64)
    ensures
        viewed(final(states)@) == kept_by(
            viewed(old(states)@),
            |e: StateView| !state_expired(e.created, now, ttl_secs),
        ),
{
    let ghost p = |e: StateEntry| !state_expired(e.created, now, ttl_secs);
    let n: usize = states.len();
    let mut keep: Vec<bool> = Vec::new();
    let mut i: usize = 0;
    let ttl: u128 = nanos_of(ttl_secs);
    while i < n
        invariant
            n == states.pairs().len(),
            i <= n,
            keep@.len() == i,
            ttl == nanos(ttl_secs),
            p == (|e: StateEntry| !state_expired(e.created, now, ttl_secs)),
            forall|j: int| 0 <= j < i ==> #[trigger] keep@[j] == p(states.pairs()[j].1),
        decreases n - i,
    {
        let created: u64 = states.entries()[i].1.created;
        keep.push(now <= created || (now - created) as u128 <= ttl);
        i = i + 1;
    }
    proof {
        lemma_viewed_kept(
            states@,
            p,
            |e: StateView| !state_expired(e.created, now, ttl_secs),
        );
    }
    states.retain_flagged(&keep, Ghost(p));
}

/// Drops the sessions whose time is over.
fn sweep_sessions(m: &mut StrMap<RefreshEntry>, now: u64)
    ensures
        viewed(final(m)@) == kept_by(viewed(old(m)@), |e: RefreshView| now <= e.expires_at),
{
    let ghost p = |e: RefreshEntry| now <= e.expires_at;
    let n: usize = m.len();
    let mut keep: Vec<bool> = Vec::new();
    let mut i: usize = 0;
    while i < n
        invariant
            n == m.pairs().len(),
            i <= n,
            keep@.len() == i,
            p == (|e: RefreshEntry| now <= e.expires_at),
            forall|j: int| 0 <= j < i ==> #[trigger] keep@[j] == p(m.pairs()[j].1),
        decreases n - i,
    {
        keep.push(now as u128 <= m.entries()[i].1.expires_at);
        i = i + 1;
    }
    proof {
        lemma_viewed_kept(m@, p, |e: RefreshView| now <= e.expires_at);
    }
    m.retain_flagged(&keep, Ghost(p));
}

/// Keeps the logout tokens whose moment is not before a limit.
pub(crate) fn sweep_jtis(m: &mut StrMap<u128>, limit: u128)
    ensures
        final(m)@ == kept_by(old(m)@, |t: u128| limit <= t),
{
    let ghost p = |t: u128| limit <= t;
    let n: usize = m.len();
    let mut keep: Vec<bool> = Vec::new();
    let mut i: usize = 0;
    while i < n
        invariant
            n == m.pairs().len(),
            i <= n,
            keep@.len() == i,
            p == (|t: u128| limit <= t),
            forall|j: int| 0 <= j < i ==> #[trigger] keep@[j] == p(m.pairs()[j].1),
        decreases n - i,
    {
        keep.push(limit <= m.entries()[i].1);
        i = i + 1;
    }
    m.retain_flagged(&keep, Ghost(p));
}

impl OidcProvider {
    /// The first half of a refresh: the refresh token to send to the provider.
    pub fn begin_refresh(&mut self, sid: &str, now: u64) -> (r: Result<String, RefreshError>)
        ensures
            (token_view(r), final(self)@) == refresh_begun(old(self)@, sid@, now),
            final(self).cfg == old(self).cfg,
    {
        if self.client.is_none() {
            return Err(RefreshError::NotReady);
        }
        let ghost m = self.refreshes@;
        let found = match self.refreshes.get(sid) {
            None => {
                return Err(RefreshError::UnknownSession);
            },
            Some(e) => {
                assert(viewed(m)[sid@] == e@);
                if now as u128 > e.expires_at {
                    None
                } else {
                    Some(e.refresh_token.clone())
                }
            },
        };
        match found {
            Some(t) => Ok(t),
            None => {
                proof {
                    lemma_viewed_remove(m, sid@);
                }
                let _gone = self.refreshes.remove(sid);
                Err(RefreshError::Expired)
            },
        }
    }

    /// The second half of a refresh, with a given name for a new session: takes
    /// up the tokens that the provider gave.
    pub fn refresh_with(
        &mut self,
        sid: &str,
        exchange: Exchange,
        new_sid: String,
        now: u64,
        metrics: &mut Metrics,
    ) -> (r: Result<(Identity, String), RefreshError>)
        ensures
            refresh_view(r) == refresh_result(old(self).cfg, sid@, exchange@, new_sid@),
            final(self)@ == refresh_left(
                old(self).cfg,
                old(self)@,
                sid@,
                exchange@,
                new_sid@,
                now,
            ),
            final(self).cfg == old(self).cfg,
            *final(metrics) == exchange_counted(*old(metrics), old(self).cfg, exchange@),
    {
        let ghost m = self.refreshes@;
        match exchange {
            Exchange::Failed => {
                proof {
                    lemma_viewed_remove(m, sid@);
                    assert(!m.dom().contains(sid@) ==> m.remove(sid@) =~= m);
                }
                let _gone = self.refreshes.remove(sid);
                Err(RefreshError::ExchangeFailed)
            },
            Exchange::NoIdToken => Err(RefreshError::NoIdToken),
            Exchange::InvalidIdToken => Err(RefreshError::InvalidIdToken),
            Exchange::Granted(g) => {
                let id = identity_of(&self.cfg, &g, metrics);
                let rotated = match &g.refresh_token {
                    Some(t) => Some(t.clone()),
                    None => None,
                };
                match rotated {
                    Some(t) => {
                        let session = new_session(&self.cfg, g, t, now);
                        proof {
                            lemma_viewed_remove(m, sid@);
                            lemma_viewed_insert(m.remove(sid@), new_sid@, session);
                            assert(!m.dom().contains(sid@) ==> m.remove(sid@) =~= m);
                        }
                        let _gone = self.refreshes.remove(sid);
                        let name = new_sid.clone();
                        self.refreshes.insert(new_sid, session);
                        Ok((id, name))
                    },
                    None => {
                        let kept = match self.refreshes.get(sid) {
                            Some(e) => Some(e.refresh_token.clone()),
                            None => None,
                        };
                        match kept {
                            Some(t) => {
                                let session = new_session(&self.cfg, g, t, now);
                                proof {
                                    assert(viewed(m)[sid@].refresh_token == t@);
                                    lemma_viewed_insert(m, sid@, session);
                                }
                                self.refreshes.insert(sid.to_owned(), session);
                            },
                            None => {},
                        }
                        Ok((id, sid.to_owned()))
                    },
                }
            },
        }
    }

    /// The second half of a refresh: validates the ID token that the provider gave,
    /// takes up the tokens, and names the session. There is no nonce to ask for: the
    /// refresh token itself belongs to the session.
    pub fn refresh(
        &mut self,
        sid: &str,
        reply: TokenReply,
        now: u64,
        unix_now: u64,
        metrics: &mut Metrics,
    ) -> (r: Result<(Identity, String), RefreshError>)
        requires
            unix_now < MAX_UNIX_SECS,
        ensures
            ({
                let x = exchange_of(old(self).cfg, old(self)@, reply, None, unix_now);
                &&& exists|new_sid: Seq<char>|
                    new_sid.len() == 22 && is_base64url(new_sid) && refresh_view(r)
                        == refresh_result(old(self).cfg, sid@, x, new_sid) && final(self)@
                        == #[trigger] refresh_left(
                        old(self).cfg,
                        old(self)@,
                        sid@,
                        x,
                        new_sid,
                        now,
                    )
                &&& *final(metrics) == exchange_counted(*old(metrics), old(self).cfg, x)
            }),
            final(self).cfg == old(self).cfg,
    {
        let exchange = self.take_reply(reply, None, unix_now);
        let new_sid = random_token();
        self.refresh_with(sid, exchange, new_sid, now, metrics)
    }

    /// Ends a session: its ID token and its refresh token.
    pub fn take_logout_session(&mut self, sid: &str) -> (r: Option<(String, String)>)
        ensures
            pair_view(r) == logout_session(old(self)@, sid@),
            final(self)@ == session_dropped(old(self)@, sid@),
            final(self).cfg == old(self).cfg,
    {
        let ghost m = self.refreshes@;
        proof {
            lemma_viewed_remove(m, sid@);
        }
        match self.refreshes.remove(sid) {
            Some(e) => {
                assert(viewed(m)[sid@] == e@);
                Some((e.id_token, e.refresh_token))
            },
            None => {
                assert(m.remove(sid@) =~= m);
                None
            },
        }
    }

    /// The refresh token to revoke at the provider, where it is to be revoked.
    pub fn revoke_refresh_token(&self, refresh_token: String) -> (r: Option<String>)
        ensures
            r == if revocation_due(self.cfg, self@) {
                Some(refresh_token)
            } else {
                None
            },
    {
        if self.cfg.revoke_on_logout && self.client.is_some() && self.revocation_url.is_some() {
            Some(refresh_token)
        } else {
            None
        }
    }

    /// Drops the logins, the sessions and the logout tokens whose time is over.
    pub fn evict_expired(&mut self, now: u64)
        ensures
            final(self)@ == swept(old(self)@, old(self).cfg.state_ttl_secs, now),
            final(self).cfg == old(self).cfg,
    {
        sweep_states(&mut self.states, self.cfg.state_ttl_secs, now);
        sweep_sessions(&mut self.refreshes, now);
        sweep_jtis(&mut self.seen_jtis, now as u128);
        assert(self@.seen_jtis =~= kept_by(old(self)@.seen_jtis, |t: u128| now <= t));
    }
}

} // verus!
