//! ID tokens: validating them by way of `openidconnect`, and the claims that a
//! valid one carries.
use crate::oidc::claims::{
    json_members, text_opt, texts, Claim, ClaimView, Claims, ClaimsView,
};
use crate::oidc::{jwks_view, OidcConfig, OidcProvider, ProviderView};
use crate::text::{chars_of, join, joined, parts, same_str, split_on, string_of};
use base64::engine::{DecodePaddingMode, GeneralPurpose, GeneralPurposeConfig};
use base64::Engine;
use openidconnect::{AuthUrl, ClientId, ClientSecret, IssuerUrl, Nonce};
use std::time::{Duration, UNIX_EPOCH};
use vstd::prelude::*;
use vstd::slice::slice_subrange;

verus! {

/// Moments before this one, in seconds of Unix time, are ones that dates can be
/// made of.
pub const MAX_UNIX_SECS: u64 = 4_000_000_000_000;

/// The subject of an ID token, where the token is valid: for an issuer, a client
/// with its secret, the provider's keys, a nonce if one is asked for, and a
/// moment.
pub uninterp spec fn id_token_subject(
    token: Seq<char>,
    issuer: Seq<char>,
    client_id: Seq<char>,
    secret: Option<Seq<char>>,
    keys: Seq<char>,
    nonce: Option<Seq<char>>,
    unix_now: u64,
) -> Option<Seq<char>>;

/// `openidconnect`'s `IdToken::claims` under the `id_token_verifier` of a client
/// that is built of the issuer, the client's name and secret and the key set, which
/// is read from its JSON text, with the given moment for the time, and with a nonce
/// that has to be the token's: the subject of the token where it is valid. What makes
/// a token valid is left as a name. A moment that no date can be made of makes it
/// panic.
#[verifier::external_body]
fn subject_with_nonce(
    token: &str,
    issuer: String,
    id: String,
    secret: Option<String>,
    keys: &str,
    nonce: String,
    unix_now: u64,
) -> (r: Option<String>)
    requires
        unix_now < MAX_UNIX_SECS,
    ensures
        text_opt(r) == id_token_subject(
            token@,
            issuer@,
            id@,
            text_opt(secret),
            keys@,
            Some(nonce@),
            unix_now,
        ),
{
    let token = token.parse::<openidconnect::core::CoreIdToken>().ok()?;
    let client = openidconnect::core::CoreClient::new(
        ClientId::new(id), secret.map(ClientSecret::new), IssuerUrl::new(issuer.clone()).ok()?,
        AuthUrl::new(issuer).ok()?, None, None, serde_json::from_str(keys).ok()?,
    );
    let now = UNIX_EPOCH + Duration::from_secs(unix_now);
    let verifier = client.id_token_verifier().set_time_fn(move || now.into());
    let claims = token.claims(&verifier, &Nonce::new(nonce)).ok()?;
    Some(claims.subject().to_string())
}

/// The same for a token whose nonce is not asked for: the check of the nonce that is
/// handed to `IdToken::claims` accepts every one.
#[verifier::external_body]
fn subject_without_nonce(
    token: &str,
    issuer: String,
    id: String,
    secret: Option<String>,
    keys: &str,
    unix_now: u64,
) -> (r: Option<String>)
    requires
        unix_now < MAX_UNIX_SECS,
    ensures
        text_opt(r) == id_token_subject(
            token@,
            issuer@,
            id@,
            text_opt(secret),
            keys@,
            None,
            unix_now,
        ),
{
    let token = token.parse::<openidconnect::core::CoreIdToken>().ok()?;
    let client = openidconnect::core::CoreClient::new(
        ClientId::new(id), secret.map(ClientSecret::new), IssuerUrl::new(issuer.clone()).ok()?,
        AuthUrl::new(issuer).ok()?, None, None, serde_json::from_str(keys).ok()?,
    );
    let now = UNIX_EPOCH + Duration::from_secs(unix_now);
    let verifier = client.id_token_verifier().set_time_fn(move || now.into());
    let claims = token.claims(&verifier, |_: Option<&Nonce>| Ok(())).ok()?;
    Some(claims.subject().to_string())
}

/// What the URL-safe base64 engine decodes a segment of an ID token to, where it
/// does.
pub uninterp spec fn segment_bytes(text: Seq<char>) -> Option<Seq<u8>>;

/// `base64`'s `GeneralPurpose` engine for the URL-safe alphabet, `decode`, with bits
/// behind the last byte allowed and padding allowed but not asked for: the bytes that
/// a text stands for, or nothing where it is not in that encoding.
#[verifier::external_body]
fn decode_segment(text: &str) -> (r: Option<Vec<u8>>)
    ensures
        match r {
            Some(b) => segment_bytes(text@) == Some(b@),
            None => segment_bytes(text@) is None,
        },
{
    let config = GeneralPurposeConfig::new()
        .with_decode_allow_trailing_bits(true)
        .with_decode_padding_mode(DecodePaddingMode::Indifferent);
    GeneralPurpose::new(&base64::alphabet::URL_SAFE, config).decode(text).ok()
}

/// The claims that say who a user is.
pub open spec fn is_user_claim(name: Seq<char>) -> bool {
    ||| name == "sub"@
    ||| name == "name"@
    ||| name == "given_name"@
    ||| name == "family_name"@
    ||| name == "middle_name"@
    ||| name == "nickname"@
    ||| name == "preferred_username"@
    ||| name == "profile"@
    ||| name == "picture"@
    ||| name == "website"@
    ||| name == "email"@
    ||| name == "email_verified"@
    ||| name == "gender"@
    ||| name == "birthday"@
    ||| name == "birthdate"@
    ||| name == "zoneinfo"@
    ||| name == "locale"@
    ||| name == "phone_number"@
    ||| name == "phone_number_verified"@
    ||| name == "address"@
    ||| name == "updated_at"@
}

fn user_claim(name: &str) -> (r: bool)
    ensures
        r == is_user_claim(name@),
{
    same_str(name, "sub")
        || same_str(name, "name")
        || same_str(name, "given_name")
        || same_str(name, "family_name")
        || same_str(name, "middle_name")
        || same_str(name, "nickname")
        || same_str(name, "preferred_username")
        || same_str(name, "profile")
        || same_str(name, "picture")
        || same_str(name, "website")
        || same_str(name, "email")
        || same_str(name, "email_verified")
        || same_str(name, "gender")
        || same_str(name, "birthday")
        || same_str(name, "birthdate")
        || same_str(name, "zoneinfo")
        || same_str(name, "locale")
        || same_str(name, "phone_number")
        || same_str(name, "phone_number_verified")
        || same_str(name, "address")
        || same_str(name, "updated_at")
}

/// The name of a claim: a language tag behind the name of a claim on the user does
/// not count where it is empty.
pub open spec fn id_name(name: Seq<char>) -> Seq<char> {
    if name.len() > 0 && name.last() == '#' && is_user_claim(name.drop_last()) {
        name.drop_last()
    } else {
        name
    }
}

fn strip_tag(name: String) -> (r: String)
    ensures
        r@ == id_name(name@),
{
    let cs = chars_of(name.as_str());
    let n: usize = cs.len();
    if n > 0 && cs[n - 1] == '#' {
        let front = string_of(slice_subrange(cs.as_slice(), 0, n - 1));
        assert(front@ =~= name@.drop_last());
        if user_claim(front.as_str()) {
            return front;
        }
    }
    name
}

/// A claim of an ID token: an audience that is a text is a list of one.
pub open spec fn id_claim(name: Seq<char>, value: ClaimView) -> ClaimView {
    match value {
        ClaimView::Text(s) if name == "aud"@ => ClaimView::List(seq![Some(s)]),
        v => v,
    }
}

fn list_aud(name: &str, value: Claim) -> (r: Claim)
    ensures
        r@ == id_claim(name@, value@),
{
    match value {
        Claim::Text(s) => {
            if !same_str(name, "aud") {
                return Claim::Text(s);
            }
            let mut items: Vec<Option<String>> = Vec::new();
            items.push(Some(s));
            let list = Claim::List(items);
            assert(list@->List_0 =~= seq![Some(s@)]);
            list
        },
        v => v,
    }
}

/// The claims of an ID token, given the members of its payload. One that is null is
/// none.
pub open spec fn document(c: ClaimsView) -> ClaimsView
    decreases c.len(),
{
    if c.len() == 0 {
        Seq::empty()
    } else {
        let front = document(c.drop_last());
        let name = id_name(c.last().0);
        match c.last().1 {
            ClaimView::Null => front,
            v => front.push((name, id_claim(name, v))),
        }
    }
}

fn make_document(claims: Claims) -> (r: Claims)
    ensures
        r@ == document(claims@),
{
    let mut rest = claims.members;
    let ghost c = claims@;
    let n: usize = rest.len();
    let mut out = Claims { members: Vec::new() };
    let mut i: usize = 0;
    assert(out@ =~= document(c.take(0)));
    while i < n
        invariant
            n == c.len(),
            i <= n,
            rest@.len() == n - i,
            forall|j: int| 0 <= j < n - i ==> (#[trigger] rest@[j]).0@ == c[i + j].0 && rest@[j].1@
                == c[i + j].1,
            out@ == document(c.take(i as int)),
        decreases n - i,
    {
        let ghost row = rest@;
        let (name, value) = rest.remove(0);
        assert(row[0].0@ == c[i as int].0 && row[0].1@ == c[i as int].1);
        assert forall|j: int| 0 <= j < n - i - 1 implies (#[trigger] rest@[j]).0@ == c[i + 1 + j].0
            && rest@[j].1@ == c[i + 1 + j].1 by {
            assert(rest@[j] == row[j + 1]);
        }
        assert(c.take(i + 1).drop_last() =~= c.take(i as int));
        assert(c.take(i + 1).last() == c[i as int]);
        let ghost before = out@;
        match value {
            Claim::Null => {},
            v => {
                let name = strip_tag(name);
                let v = list_aud(name.as_str(), v);
                out.members.push((name, v));
                assert(out@ =~= before.push((name@, v@)));
            },
        }
        i = i + 1;
    }
    assert(c.take(n as int) =~= c);
    out
}

/// The claims that an ID token carries: those of its second segment. Where that is no
/// claim document it carries none.
pub open spec fn id_claims(token: Seq<char>) -> ClaimsView {
    let p = parts(token, '.');
    if p.len() != 3 {
        Seq::empty()
    } else {
        match segment_bytes(p[1]) {
            Some(b) => match json_members(b) {
                Some(c) => document(c),
                None => Seq::empty(),
            },
            None => Seq::empty(),
        }
    }
}

fn no_claims() -> (r: Claims)
    ensures
        r@ == Seq::<(Seq<char>, ClaimView)>::empty(),
{
    let none = Claims { members: Vec::new() };
    assert(none@ =~= Seq::empty());
    none
}

/// Reads the claims that an ID token carries. It says nothing of whether the token
/// is valid.
pub fn read_id_claims(token: &str) -> (r: Claims)
    ensures
        r@ == id_claims(token@),
{
    let cs = chars_of(token);
    let p = split_on(cs.as_slice(), '.');
    let ghost pp = parts(token@, '.');
    assert(pp.len() == p@.len());
    if p.len() != 3 {
        return no_claims();
    }
    assert(pp[1] == p@[1]@);
    let text = string_of(p[1]);
    match decode_segment(text.as_str()) {
        Some(b) => match Claims::parse(b.as_slice()) {
            Some(c) => make_document(c),
            None => no_claims(),
        },
        None => no_claims(),
    }
}

/// The JSON text of a set of keys.
pub open spec fn key_set(jwks: Option<Seq<Seq<char>>>) -> Seq<char> {
    match jwks {
        Some(keys) => "{\"keys\":["@ + joined(keys, ","@) + "]}"@,
        None => "{\"keys\":[]}"@,
    }
}

fn write_key_set(jwks: &Option<Vec<String>>) -> (r: String)
    ensures
        r@ == key_set(jwks_view(*jwks)),
{
    match jwks {
        Some(keys) => {
            let mut out = String::new();
            out.append("{\"keys\":[");
            let list = join(keys, ",");
            assert(texts(keys@) =~= Seq::new(keys@.len(), |i: int| keys@[i]@));
            out.append(list.as_str());
            out.append("]}");
            assert(out@ =~= key_set(jwks_view(*jwks)));
            out
        },
        None => "{\"keys\":[]}".to_owned(),
    }
}

/// The subject of an ID token for this client, where the token is valid. None is
/// before the provider's documents were read.
pub open spec fn subject_for(
    cfg: OidcConfig,
    p: ProviderView,
    token: Seq<char>,
    nonce: Option<Seq<char>>,
    unix_now: u64,
) -> Option<Seq<char>> {
    match p.client {
        Some((issuer, _)) => id_token_subject(
            token,
            issuer,
            cfg.client_id@,
            text_opt(cfg.client_secret),
            key_set(p.jwks),
            nonce,
            unix_now,
        ),
        None => None,
    }
}

impl OidcProvider {
    /// Validates an ID token for this client: its subject. A login asks for a nonce,
    /// and a refresh for none.
    pub fn check_id_token(&self, token: &str, nonce: Option<&str>, unix_now: u64) -> (r: Option<
        String,
    >)
        requires
            unix_now < MAX_UNIX_SECS,
        ensures
            text_opt(r) == subject_for(
                self.cfg,
                self@,
                token@,
                match nonce {
                    Some(n) => Some(n@),
                    None => None,
                },
                unix_now,
            ),
    {
        let issuer = match &self.client {
            Some(c) => c.issuer.clone(),
            None => {
                return None;
            },
        };
        let secret = match &self.cfg.client_secret {
            Some(s) => Some(s.clone()),
            None => None,
        };
        let id = self.cfg.client_id.clone();
        let keys = write_key_set(&self.jwks);
        match nonce {
            Some(n) => subject_with_nonce(
                token,
                issuer,
                id,
                secret,
                keys.as_str(),
                n.to_owned(),
                unix_now,
            ),
            None => subject_without_nonce(token, issuer, id, secret, keys.as_str(), unix_now),
        }
    }
}

} // verus!
