//! Logout tokens that the provider sends: validating them, refusing those that
//! were seen before, and ending the sessions that they name.
use crate::oidc::bearer::{aud_accepted, aud_matches, is_issuer, names_issuer};
use crate::oidc::claims::{
    i64_claim, member, text_claim, texts, Claim, ClaimView, Claims, ClaimsView,
};
use crate::oidc::jws::{
    jwks_signature_verifies, jws_in, parse_compact_jws, signed_by_one_of, JwsError,
};
use crate::oidc::session::sweep_jtis;
use crate::oidc::{
    after, jwks_view, moment_after, OidcConfig, OidcProvider, ProviderView, RefreshEntry,
    RefreshView,
};
use crate::strmap::{kept_by, lemma_viewed_kept, viewed, StrMap};
use crate::text::same_str;
use vstd::prelude::*;

verus! {

/// Why a logout token was refused.
#[derive(Clone, Copy, Debug, PartialEq, Eq, Structural)]
pub enum LogoutError {
    /// It is no compact JWS.
    Jws(JwsError),
    /// The provider's keys are not known yet.
    NoKeys,
    /// None of the provider's keys signed it.
    BadSignature,
    MissingIssuer,
    WrongIssuer,
    WrongAudience,
    MissingIssuedAt,
    /// It was issued too long ago, or too far ahead.
    OutsideSkew,
    MissingEvents,
    WrongEvent,
    /// It carries a nonce, which no logout token does.
    HasNonce,
    /// It names neither a user nor a session.
    NoSubject,
    MissingId,
    /// It was seen before.
    Replay,
}

/// The event that makes a token a logout token.
pub open spec fn logout_event() -> Seq<char> {
    "http://schemas.openid.net/event/backchannel-logout"@
}

/// The distance between two moments.
pub open spec fn distance(a: int, b: int) -> int {
    if a < b {
        b - a
    } else {
        a - b
    }
}

/// Whose sessions a logout token ends.
pub enum LogoutTarget {
    /// The session of that name.
    Session(String),
    /// Every session of the user.
    Subject(String),
}

/// Whose sessions a logout token ends, by value.
pub enum TargetView {
    Session(Seq<char>),
    Subject(Seq<char>),
}

impl View for LogoutTarget {
    type V = TargetView;

    open spec fn view(&self) -> TargetView {
        match self {
            LogoutTarget::Session(s) => TargetView::Session(s@),
            LogoutTarget::Subject(s) => TargetView::Subject(s@),
        }
    }
}

/// Whether a session is one of those that a logout token ends.
pub open spec fn targeted(t: TargetView, e: RefreshView) -> bool {
    match t {
        TargetView::Session(s) => e.idp_sid == Some(s),
        TargetView::Subject(s) => e.subject == s,
    }
}

/// Whose sessions the claims name: a session before a user.
pub open spec fn logout_target(c: ClaimsView) -> Option<TargetView> {
    match (text_claim(c, "sid"@), text_claim(c, "sub"@)) {
        (Some(sid), _) => Some(TargetView::Session(sid)),
        (None, Some(sub)) => Some(TargetView::Subject(sub)),
        (None, None) => None,
    }
}

/// What the claims of a signed logout token amount to: whose sessions it ends,
/// and its own id.
pub open spec fn logout_claims(cfg: OidcConfig, c: ClaimsView, unix_now: u64) -> Result<
    (TargetView, Seq<char>),
    LogoutError,
> {
    match text_claim(c, "iss"@) {
        None => Err(LogoutError::MissingIssuer),
        Some(iss) => if !names_issuer(cfg, iss) {
            Err(LogoutError::WrongIssuer)
        } else if !aud_accepted(member(c, "aud"@), seq![cfg.client_id@]) {
            Err(LogoutError::WrongAudience)
        } else {
            match i64_claim(c, "iat"@) {
                None => Err(LogoutError::MissingIssuedAt),
                Some(iat) => if distance(unix_now as int, iat as int)
                    > cfg.backchannel_max_iat_skew_secs {
                    Err(LogoutError::OutsideSkew)
                } else {
                    match member(c, "events"@) {
                        Some(ClaimView::Object(keys)) => if !keys.contains(logout_event()) {
                            Err(LogoutError::WrongEvent)
                        } else if member(c, "nonce"@) is Some {
                            Err(LogoutError::HasNonce)
                        } else {
                            match (logout_target(c), text_claim(c, "jti"@)) {
                                (None, _) => Err(LogoutError::NoSubject),
                                (_, None) => Err(LogoutError::MissingId),
                                (Some(t), Some(jti)) => Ok((t, jti)),
                            }
                        },
                        _ => Err(LogoutError::MissingEvents),
                    }
                },
            }
        },
    }
}

/// What a logout token amounts to.
pub open spec fn logout_checked(
    cfg: OidcConfig,
    jwks: Option<Seq<Seq<char>>>,
    token: Seq<char>,
    unix_now: u64,
) -> Result<(TargetView, Seq<char>), LogoutError> {
    match jws_in(token) {
        Err(e) => Err(LogoutError::Jws(e)),
        Ok(jws) => match jwks {
            None => Err(LogoutError::NoKeys),
            Some(keys) => if !signed_by_one_of(keys, jws) {
                Err(LogoutError::BadSignature)
            } else {
                logout_claims(cfg, jws.payload, unix_now)
            },
        },
    }
}

/// The logout tokens that are still remembered.
pub open spec fn live_jtis(m: Map<Seq<char>, u128>, now: u64) -> Map<Seq<char>, u128> {
    kept_by(m, |t: u128| now < t)
}

/// What noting the id of a logout token returns, and what it leaves: whether
/// the id is new, and the ids that are remembered.
pub open spec fn jti_noted(m: Map<Seq<char>, u128>, jti: Seq<char>, ttl_secs: u64, now: u64) -> (
    bool,
    Map<Seq<char>, u128>,
) {
    let live = live_jtis(m, now);
    if live.dom().contains(jti) {
        (false, live)
    } else {
        (true, live.insert(jti, after(now, ttl_secs)))
    }
}

/// The sessions that a logout token does not end.
pub open spec fn sessions_left(m: Map<Seq<char>, RefreshView>, t: TargetView) -> Map<
    Seq<char>,
    RefreshView,
> {
    kept_by(m, |e: RefreshView| !targeted(t, e))
}

/// What a checked logout token does: how many sessions it ended, and what is
/// left. One whose id was seen before ends none.
pub open spec fn logout_applied(
    cfg: OidcConfig,
    p: ProviderView,
    t: TargetView,
    jti: Seq<char>,
    now: u64,
) -> (Result<int, LogoutError>, ProviderView) {
    let (new, jtis) = jti_noted(p.seen_jtis, jti, cfg.backchannel_jti_ttl_secs, now);
    if new {
        let left = sessions_left(p.refreshes, t);
        (
            Ok(p.refreshes.dom().len() - left.dom().len()),
            ProviderView { seen_jtis: jtis, refreshes: left, ..p },
        )
    } else {
        (Err(LogoutError::Replay), ProviderView { seen_jtis: jtis, ..p })
    }
}

/// What a logout token does: how many sessions it ended, and what is left.
pub open spec fn logout_pushed(
    cfg: OidcConfig,
    p: ProviderView,
    token: Seq<char>,
    now: u64,
    unix_now: u64,
) -> (Result<int, LogoutError>, ProviderView) {
    match logout_checked(cfg, p.jwks, token, unix_now) {
        Err(e) => (Err(e), p),
        Ok((t, jti)) => logout_applied(cfg, p, t, jti, now),
    }
}

/// The number of ended sessions, by value.
pub open spec fn count_view(r: Result<usize, LogoutError>) -> Result<int, LogoutError> {
    match r {
        Ok(n) => Ok(n as int),
        Err(e) => Err(e),
    }
}

/// A checked logout token, by value.
pub open spec fn target_view(r: Result<(LogoutTarget, String), LogoutError>) -> Result<
    (TargetView, Seq<char>),
    LogoutError,
> {
    match r {
        Ok((t, jti)) => Ok((t@, jti@)),
        Err(e) => Err(e),
    }
}

fn declares_logout(keys: &Vec<String>) -> (r: bool)
    ensures
        r == texts(keys@).contains(logout_event()),
{
    let n: usize = keys.len();
    let mut i: usize = 0;
    while i < n
        invariant
            n == keys@.len(),
            i <= n,
            forall|j: int| 0 <= j < i ==> (#[trigger] texts(keys@)[j]) != logout_event(),
        decreases n - i,
    {
        assert(texts(keys@)[i as int] == keys@[i as int]@);
        if same_str(keys[i].as_str(), "http://schemas.openid.net/event/backchannel-logout") {
            return true;
        }
        i = i + 1;
    }
    false
}

fn too_far(unix_now: u64, iat: i64, skew_secs: u64) -> (r: bool)
    ensures
        r == (distance(unix_now as int, iat as int) > skew_secs),
{
    let skew: i128 = skew_secs as i128;
    let a: i128 = unix_now as i128;
    let b: i128 = iat as i128;
    if a < b {
        b - a > skew
    } else {
        a - b > skew
    }
}

/// Checks the claims of a signed logout token.
pub fn check_logout_claims(cfg: &OidcConfig, claims: &Claims, unix_now: u64) -> (r: Result<
    (LogoutTarget, String),
    LogoutError,
>)
    ensures
        target_view(r) == logout_claims(*cfg, claims@, unix_now),
{
    match claims.text("iss") {
        None => {
            return Err(LogoutError::MissingIssuer);
        },
        Some(iss) => {
            if !is_issuer(cfg, iss.as_str()) {
                return Err(LogoutError::WrongIssuer);
            }
        },
    }
    let mut ours: Vec<String> = Vec::new();
    ours.push(cfg.client_id.clone());
    assert(texts(ours@) =~= seq![cfg.client_id@]);
    if !aud_matches(claims.get("aud"), &ours) {
        return Err(LogoutError::WrongAudience);
    }
    match claims.as_i64("iat") {
        None => {
            return Err(LogoutError::MissingIssuedAt);
        },
        Some(iat) => {
            if too_far(unix_now, iat, cfg.backchannel_max_iat_skew_secs) {
                return Err(LogoutError::OutsideSkew);
            }
        },
    }
    match claims.get("events") {
        Some(Claim::Object(keys)) => {
            if !declares_logout(keys) {
                return Err(LogoutError::WrongEvent);
            }
        },
        _ => {
            return Err(LogoutError::MissingEvents);
        },
    }
    if claims.get("nonce").is_some() {
        return Err(LogoutError::HasNonce);
    }
    let sub = claims.text("sub");
    let target = match claims.text("sid") {
        Some(sid) => LogoutTarget::Session(sid),
        None => match sub {
            Some(s) => LogoutTarget::Subject(s),
            None => {
                return Err(LogoutError::NoSubject);
            },
        },
    };
    match claims.text("jti") {
        None => Err(LogoutError::MissingId),
        Some(jti) => Ok((target, jti)),
    }
}

/// Checks a logout token against the provider's keys and the set-up.
pub fn check_logout(
    cfg: &OidcConfig,
    jwks: &Option<Vec<String>>,
    token: &str,
    unix_now: u64,
) -> (r: Result<(LogoutTarget, String), LogoutError>)
    ensures
        target_view(r) == logout_checked(*cfg, jwks_view(*jwks), token@, unix_now),
{
    let jws = match parse_compact_jws(token) {
        Err(e) => {
            return Err(LogoutError::Jws(e));
        },
        Ok(j) => j,
    };
    match jwks {
        None => Err(LogoutError::NoKeys),
        Some(keys) => {
            if !jwks_signature_verifies(keys, &jws) {
                return Err(LogoutError::BadSignature);
            }
            check_logout_claims(cfg, &jws.payload, unix_now)
        },
    }
}

fn is_targeted(t: &LogoutTarget, e: &RefreshEntry) -> (r: bool)
    ensures
        r == targeted(t@, e@),
{
    match t {
        LogoutTarget::Session(s) => match &e.idp_sid {
            Some(i) => same_str(i.as_str(), s.as_str()),
            None => false,
        },
        LogoutTarget::Subject(s) => same_str(e.subject.as_str(), s.as_str()),
    }
}

/// Ends the sessions that a logout token names: how many there were.
fn end_sessions(m: &mut StrMap<RefreshEntry>, t: &LogoutTarget) -> (r: usize)
    ensures
        viewed(final(m)@) == sessions_left(viewed(old(m)@), t@),
        r == viewed(old(m)@).dom().len() - viewed(final(m)@).dom().len(),
{
    let ghost p = |e: RefreshEntry| !targeted(t@, e@);
    let ghost m0 = m@;
    let n: usize = m.len();
    let mut keep: Vec<bool> = Vec::new();
    let mut i: usize = 0;
    while i < n
        invariant
            n == m.pairs().len(),
            i <= n,
            keep@.len() == i,
            p == (|e: RefreshEntry| !targeted(t@, e@)),
            forall|j: int| 0 <= j < i ==> #[trigger] keep@[j] == p(m.pairs()[j].1),
        decreases n - i,
    {
        let out = is_targeted(t, &m.entries()[i].1);
        keep.push(!out);
        i = i + 1;
    }
    proof {
        lemma_viewed_kept(m@, p, |e: RefreshView| !targeted(t@, e));
    }
    m.retain_flagged(&keep, Ghost(p));
    let left: usize = m.len();
    proof {
        assert(viewed(m0).dom() =~= m0.dom());
        assert(viewed(m@).dom() =~= m@.dom());
        vstd::set_lib::lemma_len_subset(m@.dom(), m0.dom());
    }
    n - left
}

impl OidcProvider {
    /// Whether logout tokens are accepted.
    pub fn backchannel_logout_enabled(&self) -> (r: bool)
        ensures
            r == self.cfg.backchannel_logout_enabled,
    {
        self.cfg.backchannel_logout_enabled
    }

    /// The path that the provider sends logout tokens to.
    pub fn backchannel_logout_path(&self) -> (r: &str)
        ensures
            r@ == self.cfg.backchannel_logout_path@,
    {
        self.cfg.backchannel_logout_path.as_str()
    }

    /// Notes the id of a logout token: whether it is new.
    pub fn record_jti(&mut self, jti: &str, now: u64) -> (r: bool)
        ensures
            (r, final(self)@.seen_jtis) == jti_noted(
                old(self)@.seen_jtis,
                jti@,
                old(self).cfg.backchannel_jti_ttl_secs,
                now,
            ),
            final(self)@ == (ProviderView { seen_jtis: final(self)@.seen_jtis, ..old(self)@ }),
            final(self).cfg == old(self).cfg,
    {
        sweep_jtis(&mut self.seen_jtis, now as u128 + 1);
        assert(self.seen_jtis@ =~= live_jtis(old(self)@.seen_jtis, now));
        if self.seen_jtis.contains_key(jti) {
            return false;
        }
        let until: u128 = moment_after(now, self.cfg.backchannel_jti_ttl_secs);
        self.seen_jtis.insert(jti.to_owned(), until);
        true
    }

    /// Does what a checked logout token says: how many sessions it ended.
    pub fn apply_logout(&mut self, target: &LogoutTarget, jti: &str, now: u64) -> (r: Result<
        usize,
        LogoutError,
    >)
        ensures
            (count_view(r), final(self)@) == logout_applied(
                old(self).cfg,
                old(self)@,
                target@,
                jti@,
                now,
            ),
            final(self).cfg == old(self).cfg,
    {
        if !self.record_jti(jti, now) {
            return Err(LogoutError::Replay);
        }
        Ok(end_sessions(&mut self.refreshes, target))
    }

    /// Validates a logout token that the provider sent, and ends the sessions
    /// that it names: how many there were.
    pub fn apply_backchannel_logout(&mut self, token: &str, now: u64, unix_now: u64) -> (r: Result<
        usize,
        LogoutError,
    >)
        ensures
            (count_view(r), final(self)@) == logout_pushed(
                old(self).cfg,
                old(self)@,
                token@,
                now,
                unix_now,
            ),
            final(self).cfg == old(self).cfg,
    {
        match check_logout(&self.cfg, &self.jwks, token, unix_now) {
            Err(e) => Err(e),
            Ok((target, jti)) => self.apply_logout(&target, jti.as_str(), now),
        }
    }
}

} // verus!
