//! Compact JWS: taking a token apart, and checking its signature against the
//! provider's keys by way of `openidconnect`.
use crate::oidc::claims::{json_members, text_claim, text_opt, texts, Claims, ClaimsView};
use crate::text::{chars_of, parts, same_str, split_on, string_of};
use base64::Engine;
use openidconnect::JsonWebKey;
use vstd::prelude::*;
use vstd::utf8::encode_utf8;

verus! {

/// What the URL-safe base64 engine without padding decodes a text to, where it
/// does.
pub uninterp spec fn base64url_bytes(text: Seq<char>) -> Option<Seq<u8>>;

/// `base64`'s `URL_SAFE_NO_PAD` engine, `decode`: the bytes that a text stands
/// for, or nothing where it is not in that encoding.
#[verifier::external_body]
fn base64url_decode(text: &str) -> (r: Option<Vec<u8>>)
    ensures
        match r {
            Some(b) => base64url_bytes(text@) == Some(b@),
            None => base64url_bytes(text@) is None,
        },
{
    base64::engine::general_purpose::URL_SAFE_NO_PAD.decode(text).ok()
}

/// The names of the signing algorithms.
pub open spec fn is_alg(s: Seq<char>) -> bool {
    ||| s == "HS256"@
    ||| s == "HS384"@
    ||| s == "HS512"@
    ||| s == "RS256"@
    ||| s == "RS384"@
    ||| s == "RS512"@
    ||| s == "ES256"@
    ||| s == "ES384"@
    ||| s == "ES512"@
    ||| s == "PS256"@
    ||| s == "PS384"@
    ||| s == "PS512"@
    ||| s == "Ed25519"@
    ||| s == "none"@
}

/// `serde_json::from_value` into `openidconnect`'s `CoreJwsSigningAlgorithm`:
/// whether a text names one of its signing algorithms.
#[verifier::external_body]
fn known_alg(alg: &str) -> (r: bool)
    ensures
        r == is_alg(alg@),
{
    let name = serde_json::Value::String(alg.to_string());
    serde_json::from_value::<openidconnect::core::CoreJwsSigningAlgorithm>(name).is_ok()
}

/// The key id that a JSON Web Key carries, where the text is such a key and
/// carries one.
pub uninterp spec fn jwk_key_id(jwk: Seq<char>) -> Option<Seq<char>>;

/// `serde_json::from_str` into `openidconnect`'s `CoreJsonWebKey`, and its
/// `key_id`: the key id that a key carries.
#[verifier::external_body]
fn key_id(jwk: &str) -> (r: Option<String>)
    ensures
        match r {
            Some(k) => jwk_key_id(jwk@) == Some(k@),
            None => jwk_key_id(jwk@) is None,
        },
{
    let key = serde_json::from_str::<openidconnect::core::CoreJsonWebKey>(jwk).ok()?;
    key.key_id().map(|k| k.as_str().to_string())
}

/// Whether a JSON Web Key verifies a signature over a message.
pub uninterp spec fn jwk_verifies(
    jwk: Seq<char>,
    alg: Seq<char>,
    message: Seq<u8>,
    signature: Seq<u8>,
) -> bool;

/// The length of a signature of a keyed-hash algorithm.
pub open spec fn mac_len(alg: Seq<char>) -> Option<int> {
    if alg == "HS256"@ {
        Some(32)
    } else if alg == "HS384"@ {
        Some(48)
    } else if alg == "HS512"@ {
        Some(64)
    } else {
        None
    }
}

/// A signature has the length of a keyed-hash algorithm.
pub open spec fn mac_len_fits(alg: Seq<char>, signature: Seq<u8>) -> bool {
    match mac_len(alg) {
        Some(n) => signature.len() == n,
        None => true,
    }
}

/// `openidconnect`'s `CoreJsonWebKey::verify_signature`, on a key read from its
/// JSON text and an algorithm read from its name: whether the key verifies the
/// signature. It does not where the text is no key or the name no algorithm. A
/// keyed-hash signature of a wrong length makes it panic, so it is left out.
#[verifier::external_body]
fn verify_with(jwk: &str, alg: &str, message: &[u8], signature: &[u8]) -> (r: bool)
    requires
        mac_len_fits(alg@, signature@),
    ensures
        r == jwk_verifies(jwk@, alg@, message@, signature@),
{
    let name = serde_json::Value::String(alg.to_string());
    match (
        serde_json::from_str::<openidconnect::core::CoreJsonWebKey>(jwk),
        serde_json::from_value::<openidconnect::core::CoreJwsSigningAlgorithm>(name),
    ) {
        (Ok(key), Ok(alg)) => key.verify_signature(&alg, message, signature).is_ok(),
        _ => false,
    }
}

/// Why a token is no compact JWS.
#[derive(Clone, Copy, Debug, PartialEq, Eq, Structural)]
pub enum JwsError {
    /// Fewer than three segments.
    Malformed,
    TooManySegments,
    HeaderBase64,
    PayloadBase64,
    SignatureBase64,
    HeaderJson,
    PayloadJson,
    MissingAlg,
    UnknownAlg,
}

/// The parts of a compact JWS. Nothing in it has been verified.
pub struct ParsedJws {
    /// Signing algorithm named in the header.
    pub alg: String,
    /// Key id named in the header.
    pub kid: Option<String>,
    /// The text that is signed: the first two segments with the dot between.
    pub signed_input: String,
    pub signature_bytes: Vec<u8>,
    pub payload: Claims,
}

/// The parts of a compact JWS, by value.
pub struct JwsView {
    pub alg: Seq<char>,
    pub kid: Option<Seq<char>>,
    pub signed_input: Seq<char>,
    pub signature: Seq<u8>,
    pub payload: ClaimsView,
}

impl View for ParsedJws {
    type V = JwsView;

    open spec fn view(&self) -> JwsView {
        JwsView {
            alg: self.alg@,
            kid: text_opt(self.kid),
            signed_input: self.signed_input@,
            signature: self.signature_bytes@,
            payload: self.payload@,
        }
    }
}

/// The JWS that decoded segments make.
pub open spec fn jws_of(
    header_text: Seq<char>,
    payload_text: Seq<char>,
    header: ClaimsView,
    payload: ClaimsView,
    signature: Seq<u8>,
) -> Result<JwsView, JwsError> {
    match text_claim(header, "alg"@) {
        None => Err(JwsError::MissingAlg),
        Some(alg) => if is_alg(alg) {
            Ok(
                JwsView {
                    alg,
                    kid: text_claim(header, "kid"@),
                    signed_input: header_text.push('.') + payload_text,
                    signature,
                    payload,
                },
            )
        } else {
            Err(JwsError::UnknownAlg)
        },
    }
}

/// The JWS that a token holds.
pub open spec fn jws_in(token: Seq<char>) -> Result<JwsView, JwsError> {
    let p = parts(token, '.');
    if p.len() < 3 {
        Err(JwsError::Malformed)
    } else if p.len() > 3 {
        Err(JwsError::TooManySegments)
    } else {
        match (base64url_bytes(p[0]), base64url_bytes(p[1]), base64url_bytes(p[2])) {
            (None, _, _) => Err(JwsError::HeaderBase64),
            (_, None, _) => Err(JwsError::PayloadBase64),
            (_, _, None) => Err(JwsError::SignatureBase64),
            (Some(h), Some(b), Some(s)) => match (json_members(h), json_members(b)) {
                (None, _) => Err(JwsError::HeaderJson),
                (_, None) => Err(JwsError::PayloadJson),
                (Some(header), Some(payload)) => jws_of(p[0], p[1], header, payload, s),
            },
        }
    }
}

/// The outcome of taking a token apart, by value.
pub open spec fn jws_outcome(r: Result<ParsedJws, JwsError>) -> Result<JwsView, JwsError> {
    match r {
        Ok(j) => Ok(j@),
        Err(e) => Err(e),
    }
}

/// Puts a JWS together from its first two segments and what all three decode
/// to.
pub fn jws_from_segments(
    header_text: &str,
    payload_text: &str,
    header: &Claims,
    payload: Claims,
    signature: Vec<u8>,
) -> (r: Result<ParsedJws, JwsError>)
    ensures
        jws_outcome(r) == jws_of(header_text@, payload_text@, header@, payload@, signature@),
{
    match header.text("alg") {
        None => Err(JwsError::MissingAlg),
        Some(alg) => {
            if !known_alg(alg.as_str()) {
                return Err(JwsError::UnknownAlg);
            }
            let kid = header.text("kid");
            let mut signed_input = String::new();
            signed_input.append(header_text);
            signed_input.push('.');
            signed_input.append(payload_text);
            assert(signed_input@ =~= header_text@.push('.') + payload_text@);
            Ok(ParsedJws { alg, kid, signed_input, signature_bytes: signature, payload })
        },
    }
}

/// Takes a compact JWS apart without verifying it.
pub fn parse_compact_jws(token: &str) -> (r: Result<ParsedJws, JwsError>)
    ensures
        jws_outcome(r) == jws_in(token@),
{
    let cs = chars_of(token);
    let p = split_on(cs.as_slice(), '.');
    let ghost pp = parts(token@, '.');
    assert(pp.len() == p@.len());
    if p.len() < 3 {
        return Err(JwsError::Malformed);
    }
    if p.len() > 3 {
        return Err(JwsError::TooManySegments);
    }
    assert(pp[0] == p@[0]@ && pp[1] == p@[1]@ && pp[2] == p@[2]@);
    let h = string_of(p[0]);
    let b = string_of(p[1]);
    let s = string_of(p[2]);
    let header_bytes = match base64url_decode(h.as_str()) {
        Some(x) => x,
        None => {
            return Err(JwsError::HeaderBase64);
        },
    };
    let payload_bytes = match base64url_decode(b.as_str()) {
        Some(x) => x,
        None => {
            return Err(JwsError::PayloadBase64);
        },
    };
    let signature = match base64url_decode(s.as_str()) {
        Some(x) => x,
        None => {
            return Err(JwsError::SignatureBase64);
        },
    };
    let header = match Claims::parse(header_bytes.as_slice()) {
        Some(x) => x,
        None => {
            return Err(JwsError::HeaderJson);
        },
    };
    let payload = match Claims::parse(payload_bytes.as_slice()) {
        Some(x) => x,
        None => {
            return Err(JwsError::PayloadJson);
        },
    };
    jws_from_segments(h.as_str(), b.as_str(), &header, payload, signature)
}

/// Whether a key is tried on a token: every key where the token names none,
/// and else the keys that carry the name.
pub open spec fn key_is_tried(key: Option<Seq<char>>, token: Option<Seq<char>>) -> bool {
    match token {
        Some(t) => key == Some(t),
        None => true,
    }
}

/// Whether one of the keys verifies a JWS.
pub open spec fn signed_by_one_of(keys: Seq<Seq<char>>, jws: JwsView) -> bool {
    exists|i: int|
        0 <= i < keys.len() && key_is_tried(jwk_key_id(#[trigger] keys[i]), jws.kid)
            && mac_len_fits(jws.alg, jws.signature) && jwk_verifies(
            keys[i],
            jws.alg,
            encode_utf8(jws.signed_input),
            jws.signature,
        )
}

fn mac_fits(alg: &str, signature: &Vec<u8>) -> (r: bool)
    ensures
        r == mac_len_fits(alg@, signature@),
{
    let n: usize = signature.len();
    if same_str(alg, "HS256") {
        n == 32
    } else if same_str(alg, "HS384") {
        n == 48
    } else if same_str(alg, "HS512") {
        n == 64
    } else {
        true
    }
}

fn tries(key: &Option<String>, token: &Option<String>) -> (r: bool)
    ensures
        r == key_is_tried(text_opt(*key), text_opt(*token)),
{
    match token {
        Some(t) => match key {
            Some(k) => same_str(k.as_str(), t.as_str()),
            None => false,
        },
        None => true,
    }
}

/// Whether one of the provider's keys, each given as its JSON text, verifies a
/// JWS. Where the JWS names a key, only keys of that name are tried.
pub fn jwks_signature_verifies(keys: &Vec<String>, jws: &ParsedJws) -> (r: bool)
    ensures
        r == signed_by_one_of(texts(keys@), jws@),
{
    if !mac_fits(jws.alg.as_str(), &jws.signature_bytes) {
        return false;
    }
    let n: usize = keys.len();
    let mut i: usize = 0;
    let message = jws.signed_input.as_str().as_bytes();
    while i < n
        invariant
            n == keys@.len(),
            i <= n,
            mac_len_fits(jws.alg@, jws.signature_bytes@),
            message@ == encode_utf8(jws.signed_input@),
            forall|j: int|
                0 <= j < i ==> !(key_is_tried(
                    jwk_key_id(#[trigger] texts(keys@)[j]),
                    jws@.kid,
                ) && jwk_verifies(
                    texts(keys@)[j],
                    jws.alg@,
                    encode_utf8(jws.signed_input@),
                    jws.signature_bytes@,
                )),
        decreases n - i,
    {
        let key = keys[i].as_str();
        assert(texts(keys@)[i as int] == key@);
        let id = key_id(key);
        if tries(&id, &jws.kid) && verify_with(
            key,
            jws.alg.as_str(),
            message,
            jws.signature_bytes.as_slice(),
        ) {
            return true;
        }
        i = i + 1;
    }
    false
}

/// Without keys nothing verifies.
pub proof fn law_no_keys_verify_nothing(jws: JwsView)
    ensures
        !signed_by_one_of(Seq::empty(), jws),
{
}

/// A token that names a key is verified only where one of the keys carries that
/// name.
pub proof fn law_named_key_is_required(keys: Seq<Seq<char>>, jws: JwsView, name: Seq<char>)
    requires
        jws.kid == Some(name),
    ensures
        signed_by_one_of(keys, jws) ==> exists|i: int|
            0 <= i < keys.len() && jwk_key_id(#[trigger] keys[i]) == Some(name),
{
}

} // verus!
