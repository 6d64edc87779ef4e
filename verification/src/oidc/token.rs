//! What is read out of a signed token, and which tokens are remembered.
use crate::oidc::cache::{
    lookup, lookup_from, put_in, touched, without, CachedToken,
};
use crate::oidc::claims::{json_members, member, text_opt, ClaimView, ClaimsView};
use crate::oidc::id_token::{
    document, id_claims, id_token_subject, is_user_claim, key_set, segment_bytes, subject_for,
};
use crate::oidc::jws::{
    base64url_bytes, jwk_key_id, jwk_verifies, jws_in, jws_of, key_is_tried, signed_by_one_of, JwsError,
    JwsView,
};
use crate::oidc::who::{law_member_is_the_first, says};
use crate::oidc::{OidcConfig, ProviderView};
use crate::text::{joined, lemma_more_parts, lemma_one_part, parts};
use vstd::prelude::*;
use vstd::utf8::*;

verus! {

/// A header that names no algorithm by a text is refused, and so is one that names one that is
/// not known. What any other gives: the text up to the second dot is what is signed.
pub proof fn law_signed_token_by_its_segments(
    header_text: Seq<char>,
    payload_text: Seq<char>,
    header: ClaimsView,
    payload: ClaimsView,
    signature: Seq<u8>,
    alg: Seq<char>,
    kid: Seq<char>,
)
    ensures
        ({
            let r = jws_of(header_text, payload_text, header, payload, signature);
            let known = alg == "HS256"@ || alg == "HS384"@ || alg == "HS512"@ || alg == "RS256"@ || alg
                == "RS384"@ || alg == "RS512"@ || alg == "ES256"@ || alg == "ES384"@ || alg
                == "ES512"@ || alg == "PS256"@ || alg == "PS384"@ || alg == "PS512"@ || alg
                == "Ed25519"@ || alg == "none"@;
            &&& (forall|a: Seq<char>| !#[trigger] says(header, "alg"@, ClaimView::Text(a))) ==> r
                == Err::<JwsView, _>(JwsError::MissingAlg)
            &&& says(header, "alg"@, ClaimView::Text(alg)) && !known ==> r == Err::<JwsView, _>(
                JwsError::UnknownAlg,
            )
            &&& says(header, "alg"@, ClaimView::Text(alg)) && known ==> {
                &&& r is Ok
                &&& r->Ok_0.alg == alg
                &&& r->Ok_0.signed_input == header_text + "."@ + payload_text
                &&& r->Ok_0.signature == signature
                &&& r->Ok_0.payload == payload
                &&& says(header, "kid"@, ClaimView::Text(kid)) ==> r->Ok_0.kid == Some(kid)
                &&& (forall|k: Seq<char>| !#[trigger] says(header, "kid"@, ClaimView::Text(k)))
                    ==> r->Ok_0.kid is None
            }
        }),
{
    reveal_strlit(".");
    law_member_is_the_first(header, "alg"@, ClaimView::Text(alg));
    law_member_is_the_first(header, "kid"@, ClaimView::Text(kid));
    if let Some(ClaimView::Text(a)) = member(header, "alg"@) {
        law_member_is_the_first(header, "alg"@, ClaimView::Text(a));
    }
    if let Some(ClaimView::Text(k)) = member(header, "kid"@) {
        law_member_is_the_first(header, "kid"@, ClaimView::Text(k));
    }
    assert(header_text.push('.') + payload_text =~= header_text + "."@ + payload_text);
}

/// A token has three segments between dots, each of bytes in base 64. The first two hold the
/// members of a JSON object. What is wrong is told by what is wrong first.
pub proof fn law_signed_token_is_read(
    a: Seq<char>,
    b: Seq<char>,
    c: Seq<char>,
    h: Seq<u8>,
    p: Seq<u8>,
    s: Seq<u8>,
    header: ClaimsView,
    payload: ClaimsView,
)
    requires
        !a.contains('.'),
        !b.contains('.'),
        !c.contains('.'),
    ensures
        ({
            let r = jws_in(a.push('.') + (b.push('.') + c));
            let ok_h = base64url_bytes(a) == Some(h);
            let ok_p = base64url_bytes(b) == Some(p);
            let ok_s = base64url_bytes(c) == Some(s);
            &&& base64url_bytes(a) is None ==> r == Err::<JwsView, _>(JwsError::HeaderBase64)
            &&& ok_h && base64url_bytes(b) is None ==> r == Err::<JwsView, _>(
                JwsError::PayloadBase64,
            )
            &&& ok_h && ok_p && base64url_bytes(c) is None ==> r == Err::<JwsView, _>(
                JwsError::SignatureBase64,
            )
            &&& ok_h && ok_p && ok_s && json_members(h) is None ==> r == Err::<JwsView, _>(
                JwsError::HeaderJson,
            )
            &&& ok_h && ok_p && ok_s && json_members(h) is Some && json_members(p) is None ==> r
                == Err::<JwsView, _>(JwsError::PayloadJson)
            &&& ok_h && ok_p && ok_s && json_members(h) == Some(header) && json_members(p) == Some(
                payload,
            ) ==> r == jws_of(a, b, header, payload, s)
        }),
{
    lemma_three_segments(a, b, c);
}

/// A token of other than three segments is refused.
pub proof fn law_signed_token_has_three_segments(token: Seq<char>)
    ensures
        parts(token, '.').len() < 3 ==> jws_in(token) == Err::<JwsView, _>(JwsError::Malformed),
        parts(token, '.').len() > 3 ==> jws_in(token) == Err::<JwsView, _>(
            JwsError::TooManySegments,
        ),
        parts(token, '.').len() != 3 ==> id_claims(token).len() == 0,
{
}

/// The parts of a text with two dots.
pub proof fn lemma_three_segments(a: Seq<char>, b: Seq<char>, c: Seq<char>)
    requires
        !a.contains('.'),
        !b.contains('.'),
        !c.contains('.'),
    ensures
        parts(a.push('.') + (b.push('.') + c), '.') == seq![a, b, c],
{
    lemma_one_part(c, '.');
    lemma_more_parts(b, '.', c);
    lemma_more_parts(a, '.', b.push('.') + c);
    assert(parts(a.push('.') + (b.push('.') + c), '.') =~= seq![a, b, c]);
}

/// A key signed a token if and only if it is one of the key set, has the name that the token
/// gives where it gives one, and verifies the signature, which has the length of its hash where
/// it is a keyed one.
pub proof fn law_token_is_signed(keys: Seq<Seq<char>>, j: JwsView, i: int)
    requires
        0 <= i < keys.len(),
        jwk_verifies(keys[i], j.alg, encode_utf8(j.signed_input), j.signature),
        j.kid is Some ==> jwk_key_id(keys[i]) == j.kid,
        j.alg == "HS256"@ ==> j.signature.len() == 32,
        j.alg == "HS384"@ ==> j.signature.len() == 48,
        j.alg == "HS512"@ ==> j.signature.len() == 64,
    ensures
        signed_by_one_of(keys, j),
{
    assert(key_is_tried(jwk_key_id(keys[i]), j.kid));
}

/// A token is not signed where no key of its name verifies the signature, or where the
/// signature is none of the algorithm.
pub proof fn law_token_is_not_signed(keys: Seq<Seq<char>>, j: JwsView)
    ensures
        (forall|i: int|
            0 <= i < keys.len() && (j.kid is None || jwk_key_id(#[trigger] keys[i]) == j.kid)
                ==> !jwk_verifies(keys[i], j.alg, encode_utf8(j.signed_input), j.signature))
            ==> !signed_by_one_of(keys, j),
        j.alg == "HS256"@ && j.signature.len() != 32 ==> !signed_by_one_of(keys, j),
        j.alg == "HS384"@ && j.signature.len() != 48 ==> !signed_by_one_of(keys, j),
        j.alg == "HS512"@ && j.signature.len() != 64 ==> !signed_by_one_of(keys, j),
{
    reveal_strlit("HS256");
    reveal_strlit("HS384");
    reveal_strlit("HS512");
    assert("HS256"@[2] != "HS384"@[2]);
    assert("HS256"@[2] != "HS512"@[2]);
    assert("HS384"@[2] != "HS512"@[2]);
}

/// The members of an ID token, one by one: none that is null, an audience as a list, and all
/// else as it is, under its name.
pub proof fn law_id_token_members(c: ClaimsView, name: Seq<char>, v: ClaimView, s: Seq<char>)
    requires
        name.len() == 0 || name.last() != '#',
    ensures
        document(Seq::empty()) == Seq::<(Seq<char>, ClaimView)>::empty(),
        document(c.push((name, ClaimView::Null))) == document(c),
        name == "aud"@ ==> document(c.push((name, ClaimView::Text(s)))) == document(c).push(
            (name, ClaimView::List(seq![Some(s)])),
        ),
        !(v is Null) && (name != "aud"@ || !(v is Text)) ==> document(c.push((name, v)))
            == document(c).push((name, v)),
{
    assert(c.push((name, v)).drop_last() =~= c);
    assert(c.push((name, ClaimView::Null)).drop_last() =~= c);
    assert(c.push((name, ClaimView::Text(s))).drop_last() =~= c);
}

/// A name that ends in `#` loses that where the rest is the name of a claim on users, and no
/// other does.
pub proof fn law_id_token_tags(c: ClaimsView, base: Seq<char>, v: ClaimView)
    requires
        !(v is Null),
    ensures
        ({
            let user = base == "sub"@ || base == "name"@ || base == "given_name"@ || base
                == "family_name"@ || base == "middle_name"@ || base == "nickname"@ || base
                == "preferred_username"@ || base == "profile"@ || base == "picture"@ || base
                == "website"@ || base == "email"@ || base == "email_verified"@ || base
                == "gender"@ || base == "birthday"@ || base == "birthdate"@ || base
                == "zoneinfo"@ || base == "locale"@ || base == "phone_number"@ || base
                == "phone_number_verified"@ || base == "address"@ || base == "updated_at"@;
            let name = base.push('#');
            &&& user ==> document(c.push((name, v))) == document(c).push((base, v))
            &&& !user ==> document(c.push((name, v))) == document(c).push((name, v))
        }),
{
    let name = base.push('#');
    reveal_strlit("aud");
    assert("aud"@.last() == 'd');
    assert(name.last() == '#');
    assert(name.drop_last() =~= base);
    assert(c.push((name, v)).drop_last() =~= c);
    lemma_no_user_claim_is_aud();
}

/// The audience is no claim on users.
proof fn lemma_no_user_claim_is_aud()
    ensures
        !is_user_claim("aud"@),
{
    reveal_strlit("aud");
    reveal_strlit("sub");
    reveal_strlit("name");
    reveal_strlit("given_name");
    reveal_strlit("family_name");
    reveal_strlit("middle_name");
    reveal_strlit("nickname");
    reveal_strlit("preferred_username");
    reveal_strlit("profile");
    reveal_strlit("picture");
    reveal_strlit("website");
    reveal_strlit("email");
    reveal_strlit("email_verified");
    reveal_strlit("gender");
    reveal_strlit("birthday");
    reveal_strlit("birthdate");
    reveal_strlit("zoneinfo");
    reveal_strlit("locale");
    reveal_strlit("phone_number");
    reveal_strlit("phone_number_verified");
    reveal_strlit("address");
    reveal_strlit("updated_at");
    assert("aud"@.len() == 3 && "aud"@[0] == 'a' && "sub"@[0] == 's');
    assert("name"@.len() == 4);
    assert("given_name"@.len() == 10);
    assert("family_name"@.len() == 11);
    assert("middle_name"@.len() == 11);
    assert("nickname"@.len() == 8);
    assert("preferred_username"@.len() == 18);
    assert("profile"@.len() == 7);
    assert("picture"@.len() == 7);
    assert("website"@.len() == 7);
    assert("email"@.len() == 5);
    assert("email_verified"@.len() == 14);
    assert("gender"@.len() == 6);
    assert("birthday"@.len() == 8);
    assert("birthdate"@.len() == 9);
    assert("zoneinfo"@.len() == 8);
    assert("locale"@.len() == 6);
    assert("phone_number"@.len() == 12);
    assert("phone_number_verified"@.len() == 21);
    assert("address"@.len() == 7);
    assert("updated_at"@.len() == 10);
}

/// The members of an ID token are those of its second segment, and there are none where that
/// cannot be read.
pub proof fn law_id_token_is_read(a: Seq<char>, b: Seq<char>, c: Seq<char>, d: Seq<u8>)
    requires
        !a.contains('.'),
        !b.contains('.'),
        !c.contains('.'),
    ensures
        ({
            let got = id_claims(a.push('.') + (b.push('.') + c));
            &&& segment_bytes(b) is None ==> got.len() == 0
            &&& segment_bytes(b) == Some(d) && json_members(d) is None ==> got.len() == 0
            &&& segment_bytes(b) == Some(d) && json_members(d) is Some ==> got == document(
                json_members(d)->0,
            )
        }),
{
    lemma_three_segments(a, b, c);
}

/// An ID token is validated for this client, by the keys and the issuer that the provider gave,
/// and not at all before those are known.
pub proof fn law_id_token_is_validated(
    cfg: OidcConfig,
    p: ProviderView,
    token: Seq<char>,
    nonce: Option<Seq<char>>,
    unix_now: u64,
    issuer: Seq<char>,
    url: Seq<char>,
    keys: Seq<Seq<char>>,
)
    ensures
        p.client is None ==> subject_for(cfg, p, token, nonce, unix_now) is None,
        p.client == Some((issuer, url)) ==> subject_for(cfg, p, token, nonce, unix_now)
            == id_token_subject(
            token,
            issuer,
            cfg.client_id@,
            text_opt(cfg.client_secret),
            key_set(p.jwks),
            nonce,
            unix_now,
        ),
        key_set(Some(keys)) == "{\"keys\":["@ + joined(keys, ","@) + "]}"@,
        key_set(None) == "{\"keys\":[]}"@,
{
}

/// A remembered token is found by its key, the first of that key.
pub proof fn law_cache_is_searched(s: Seq<CachedToken>, key: Seq<u8>, i: int)
    ensures
        0 <= i < s.len() && s[i].0 == key && (forall|j: int|
            0 <= j < i ==> (#[trigger] s[j]).0 != key) ==> lookup(s, key) == Some(s[i]),
        (forall|j: int| 0 <= j < s.len() ==> (#[trigger] s[j]).0 != key) ==> lookup(s, key) is None,
{
    if 0 <= i < s.len() && s[i].0 == key && (forall|j: int| 0 <= j < i ==> (#[trigger] s[j]).0 != key) {
        lemma_first_of_key(s, key, 0, i);
    }
    if forall|j: int| 0 <= j < s.len() ==> (#[trigger] s[j]).0 != key {
        lemma_none_of_key(s, key, 0);
    }
}

proof fn lemma_first_of_key(s: Seq<CachedToken>, key: Seq<u8>, k: int, i: int)
    requires
        0 <= k <= i < s.len(),
        s[i].0 == key,
        forall|j: int| 0 <= j < i ==> (#[trigger] s[j]).0 != key,
    ensures
        lookup_from(s, key, k) == Some(s[i]),
    decreases i - k,
{
    if k < i {
        assert(s[k].0 != key);
        lemma_first_of_key(s, key, k + 1, i);
    }
}

proof fn lemma_none_of_key(s: Seq<CachedToken>, key: Seq<u8>, k: int)
    requires
        0 <= k,
        forall|j: int| 0 <= j < s.len() ==> (#[trigger] s[j]).0 != key,
    ensures
        lookup_from(s, key, k) is None,
    decreases s.len() - k,
{
    if k < s.len() {
        assert(s[k].0 != key);
        lemma_none_of_key(s, key, k + 1);
    }
}

/// What is left without a key: all of the other keys, in their order.
pub proof fn law_cache_without_a_key(s: Seq<CachedToken>, e: CachedToken, key: Seq<u8>)
    ensures
        without(Seq::empty(), key) == Seq::<CachedToken>::empty(),
        e.0 == key ==> without(s.push(e), key) == without(s, key),
        e.0 != key ==> without(s.push(e), key) == without(s, key).push(e),
{
    assert(s.push(e).drop_last() =~= s);
}

/// A token that is used moves to the front, and so does one that is put, in the place of the
/// one of its key; where there is none of its key and no room, the last one leaves.
pub proof fn law_cache_forgets_the_oldest(
    s: Seq<CachedToken>,
    last: CachedToken,
    cap: nat,
    e: CachedToken,
    key: Seq<u8>,
)
    ensures
        lookup(s, key) is Some ==> touched(s, key) == seq![lookup(s, key)->0] + without(s, key),
        lookup(s, key) is None ==> touched(s, key) == s,
        lookup(s, e.0) is Some ==> put_in(s, cap, e) == seq![e] + without(s, e.0),
        lookup(s, e.0) is None && s.len() < cap ==> put_in(s, cap, e) == seq![e] + s,
        lookup(s.push(last), e.0) is None && s.len() + 1 == cap ==> put_in(s.push(last), cap, e)
            == seq![e] + s,
{
    assert(s.push(last).drop_last() =~= s);
}

} // verus!
