//! Bearer tokens that the provider issued: validating them against its keys,
//! and remembering the ones that are valid.
use crate::oidc::cache::{
    cache_get, cache_pop, cache_put, lookup, put_in, sha256, sha256_of, touched, without,
    BearerCacheEntry, Identity, IdentityView,
};
use crate::oidc::claims::{
    claim_or, extract_groups_claim_from_json, extract_string_claim, groups_of, member, text_claim,
    text_opt, texts, u64_claim, Claim, ClaimView, Claims, ClaimsView,
};
use crate::oidc::jws::{
    jwks_signature_verifies, jws_in, parse_compact_jws, signed_by_one_of, JwsError,
};
use crate::oidc::{slashless, trim_slashes, OidcConfig, OidcProvider, ProviderView};
use crate::text::same_str;
use vstd::prelude::*;
use vstd::utf8::encode_utf8;

verus! {

/// Why a bearer token was refused.
#[derive(Clone, Copy, Debug, PartialEq, Eq, Structural)]
pub enum BearerError {
    /// It is no compact JWS.
    Jws(JwsError),
    /// The provider's keys are not known yet.
    NoKeys,
    /// None of the provider's keys signed it.
    BadSignature,
    MissingIssuer,
    WrongIssuer,
    WrongAudience,
    MissingExpiry,
    Expired,
    NotYetValid,
}

/// How far a token's first moment may lie ahead, in seconds.
pub const NBF_SKEW_SECS: u64 = 30;

/// Whether a claim names the issuer, with or without the slashes at its end.
pub open spec fn names_issuer(cfg: OidcConfig, iss: Seq<char>) -> bool {
    iss == slashless(cfg.issuer@) || iss == cfg.issuer@
}

/// Whether a claim names the issuer, with or without the slashes at its end.
pub(crate) fn is_issuer(cfg: &OidcConfig, iss: &str) -> (r: bool)
    ensures
        r == names_issuer(*cfg, iss@),
{
    let bare = trim_slashes(cfg.issuer.as_str());
    same_str(iss, bare.as_str()) || same_str(iss, cfg.issuer.as_str())
}

/// Whether an audience claim, a text or a list, names one of the accepted
/// audiences.
pub open spec fn aud_accepted(aud: Option<ClaimView>, accepted: Seq<Seq<char>>) -> bool {
    match aud {
        Some(ClaimView::Text(s)) => accepted.contains(s),
        Some(ClaimView::List(items)) => exists|i: int|
            0 <= i < items.len() && (#[trigger] items[i] matches Some(s) && accepted.contains(s)),
        _ => false,
    }
}

fn listed(accepted: &Vec<String>, s: &str) -> (r: bool)
    ensures
        r == texts(accepted@).contains(s@),
{
    let n: usize = accepted.len();
    let mut i: usize = 0;
    while i < n
        invariant
            n == accepted@.len(),
            i <= n,
            forall|j: int| 0 <= j < i ==> (#[trigger] texts(accepted@)[j]) != s@,
        decreases n - i,
    {
        assert(texts(accepted@)[i as int] == accepted@[i as int]@);
        if same_str(accepted[i].as_str(), s) {
            return true;
        }
        i = i + 1;
    }
    false
}

/// Whether an audience claim names one of the accepted audiences.
pub(crate) fn aud_matches(aud: Option<&Claim>, accepted: &Vec<String>) -> (r: bool)
    ensures
        r == aud_accepted(
            match aud {
                Some(c) => Some(c@),
                None => None,
            },
            texts(accepted@),
        ),
{
    match aud {
        Some(Claim::Text(s)) => listed(accepted, s.as_str()),
        Some(Claim::List(items)) => {
            let n: usize = items.len();
            let ghost v = Seq::new(items@.len(), |i: int| text_opt(items@[i]));
            let mut i: usize = 0;
            while i < n
                invariant
                    n == items@.len(),
                    i <= n,
                    v == Seq::new(items@.len(), |i: int| text_opt(items@[i])),
                    aud matches Some(c) && c@ == ClaimView::List(v),
                    forall|j: int|
                        0 <= j < i ==> !(#[trigger] v[j] matches Some(s) && texts(
                            accepted@,
                        ).contains(s)),
                decreases n - i,
            {
                assert(v[i as int] == text_opt(items@[i as int]));
                match &items[i] {
                    Some(s) => {
                        if listed(accepted, s.as_str()) {
                            return true;
                        }
                    },
                    None => {},
                }
                i = i + 1;
            }
            false
        },
        _ => false,
    }
}

/// Who the claims of a bearer token speak of.
pub open spec fn bearer_identity(cfg: OidcConfig, c: ClaimsView) -> IdentityView {
    IdentityView {
        username: claim_or(
            c,
            cfg.username_claim@,
            match text_claim(c, "sub"@) {
                Some(s) => s,
                None => Seq::empty(),
            },
        ),
        groups: groups_of(c, cfg.groups_claim@),
    }
}

/// What the claims of a signed bearer token amount to: who it stands for, and
/// the second at which it expires.
pub open spec fn bearer_claims(cfg: OidcConfig, c: ClaimsView, unix_now: u64) -> Result<
    (IdentityView, u64),
    BearerError,
> {
    match text_claim(c, "iss"@) {
        None => Err(BearerError::MissingIssuer),
        Some(iss) => if !names_issuer(cfg, iss) {
            Err(BearerError::WrongIssuer)
        } else if !aud_accepted(member(c, "aud"@), texts(cfg.bearer_audiences@)) {
            Err(BearerError::WrongAudience)
        } else {
            match u64_claim(c, "exp"@) {
                None => Err(BearerError::MissingExpiry),
                Some(exp) => if exp <= unix_now {
                    Err(BearerError::Expired)
                } else if u64_claim(c, "nbf"@) matches Some(nbf) && nbf > unix_now + NBF_SKEW_SECS {
                    Err(BearerError::NotYetValid)
                } else {
                    Ok((bearer_identity(cfg, c), exp))
                },
            }
        },
    }
}

/// What a bearer token amounts to.
pub open spec fn bearer_checked(
    cfg: OidcConfig,
    jwks: Option<Seq<Seq<char>>>,
    token: Seq<char>,
    unix_now: u64,
) -> Result<(IdentityView, u64), BearerError> {
    match jws_in(token) {
        Err(e) => Err(BearerError::Jws(e)),
        Ok(jws) => match jwks {
            None => Err(BearerError::NoKeys),
            Some(keys) => if !signed_by_one_of(keys, jws) {
                Err(BearerError::BadSignature)
            } else {
                bearer_claims(cfg, jws.payload, unix_now)
            },
        },
    }
}

/// The hash under which a token is remembered.
pub open spec fn token_key(token: Seq<char>) -> Seq<u8> {
    sha256(encode_utf8(token))
}

/// What validating a bearer token returns, and what it leaves: a remembered
/// token counts until it expires, and a valid one is remembered.
pub open spec fn bearer_validated(
    cfg: OidcConfig,
    p: ProviderView,
    token: Seq<char>,
    unix_now: u64,
) -> (Result<IdentityView, BearerError>, ProviderView) {
    let key = token_key(token);
    let seen = ProviderView { tokens: touched(p.tokens, key), ..p };
    match lookup(p.tokens, key) {
        Some(e) if e.3 > unix_now => (Ok(IdentityView { username: e.1, groups: e.2 }), seen),
        found => {
            let left = if found is Some {
                ProviderView { tokens: without(seen.tokens, key), ..p }
            } else {
                p
            };
            match bearer_checked(cfg, p.jwks, token, unix_now) {
                Err(e) => (Err(e), left),
                Ok((id, exp)) => (
                    Ok(id),
                    ProviderView {
                        tokens: put_in(
                            left.tokens,
                            p.token_cap,
                            (key, id.username, id.groups, exp),
                        ),
                        ..p
                    },
                ),
            }
        },
    }
}

/// A validated identity, by value.
pub open spec fn identity_view(r: Result<Identity, BearerError>) -> Result<
    IdentityView,
    BearerError,
> {
    match r {
        Ok(id) => Ok(id@),
        Err(e) => Err(e),
    }
}

/// A validated identity with its expiry, by value.
pub open spec fn claims_view(r: Result<(Identity, u64), BearerError>) -> Result<
    (IdentityView, u64),
    BearerError,
> {
    match r {
        Ok((id, exp)) => Ok((id@, exp)),
        Err(e) => Err(e),
    }
}

/// Checks the claims of a signed bearer token.
pub fn check_bearer_claims(cfg: &OidcConfig, claims: &Claims, unix_now: u64) -> (r: Result<
    (Identity, u64),
    BearerError,
>)
    ensures
        claims_view(r) == bearer_claims(*cfg, claims@, unix_now),
{
    match claims.text("iss") {
        None => {
            return Err(BearerError::MissingIssuer);
        },
        Some(iss) => {
            if !is_issuer(cfg, iss.as_str()) {
                return Err(BearerError::WrongIssuer);
            }
        },
    }
    if !aud_matches(claims.get("aud"), &cfg.bearer_audiences) {
        return Err(BearerError::WrongAudience);
    }
    let exp: u64 = match claims.as_u64("exp") {
        None => {
            return Err(BearerError::MissingExpiry);
        },
        Some(e) => e,
    };
    if exp <= unix_now {
        return Err(BearerError::Expired);
    }
    match claims.as_u64("nbf") {
        Some(nbf) => {
            if nbf as u128 > unix_now as u128 + NBF_SKEW_SECS as u128 {
                return Err(BearerError::NotYetValid);
            }
        },
        None => {},
    }
    let sub = match claims.text("sub") {
        Some(s) => s,
        None => String::new(),
    };
    assert(sub@ =~= match text_claim(claims@, "sub"@) {
        Some(s) => s,
        None => Seq::empty(),
    });
    let username = extract_string_claim(cfg.username_claim.as_str(), claims, sub.as_str());
    let groups = extract_groups_claim_from_json(cfg.groups_claim.as_str(), claims);
    Ok((Identity { username, groups }, exp))
}

/// Checks a bearer token against the provider's keys and the set-up.
pub fn check_bearer(
    cfg: &OidcConfig,
    jwks: &Option<Vec<String>>,
    token: &str,
    unix_now: u64,
) -> (r: Result<(Identity, u64), BearerError>)
    ensures
        claims_view(r) == bearer_checked(*cfg, crate::oidc::jwks_view(*jwks), token@, unix_now),
{
    let jws = match parse_compact_jws(token) {
        Err(e) => {
            return Err(BearerError::Jws(e));
        },
        Ok(j) => j,
    };
    match jwks {
        None => Err(BearerError::NoKeys),
        Some(keys) => {
            if !jwks_signature_verifies(keys, &jws) {
                return Err(BearerError::BadSignature);
            }
            check_bearer_claims(cfg, &jws.payload, unix_now)
        },
    }
}

impl OidcProvider {
    /// Whether bearer tokens of the provider are accepted.
    pub fn bearer_enabled(&self) -> (r: bool)
        ensures
            r == self.cfg.bearer,
    {
        self.cfg.bearer
    }

    /// Validates a bearer token: who it stands for.
    pub fn validate_bearer_token(&mut self, token: &str, unix_now: u64) -> (r: Result<
        Identity,
        BearerError,
    >)
        ensures
            (identity_view(r), final(self)@) == bearer_validated(
                old(self).cfg,
                old(self)@,
                token@,
                unix_now,
            ),
            final(self).cfg == old(self).cfg,
    {
        let key = sha256_of(token.as_bytes());
        match cache_get(&mut self.bearer_cache, &key) {
            Some((id, exp)) => {
                if exp > unix_now {
                    return Ok(id);
                }
                cache_pop(&mut self.bearer_cache, &key);
            },
            None => {},
        }
        match check_bearer(&self.cfg, &self.jwks, token, unix_now) {
            Err(e) => Err(e),
            Ok((id, exp)) => {
                let kept = id.copy();
                cache_put(
                    &mut self.bearer_cache,
                    key,
                    BearerCacheEntry { identity: kept, expires_at: exp },
                );
                Ok(id)
            },
        }
    }
}

} // verus!
