//! Who a token stands for, and which tokens are taken, in terms of the claims that they
//! carry.
use crate::oidc::bearer::{bearer_checked, bearer_claims, bearer_validated, BearerError};
use crate::oidc::cache::{lookup, sha256, IdentityView};
use crate::oidc::claims::{
    filled_claim, filled_items, groups_of, i64_claim, member, member_from, text_claim, texts,
    u64_claim, ClaimView, ClaimsView,
};
use crate::oidc::jws::{jwk_key_id, jwk_verifies, jws_in, signed_by_one_of, JwsView};
use crate::oidc::login::{granted_identity, id_token_identity, GrantView, UserInfoView};
use crate::oidc::{slashless, OidcConfig, ProviderView};
use crate::text::words;
use vstd::prelude::*;
use vstd::utf8::encode_utf8;

verus! {

/// A claim document says this under a name: the first member of that name does.
pub open spec fn says(c: ClaimsView, name: Seq<char>, v: ClaimView) -> bool {
    exists|i: int|
        #![trigger c[i]]
        0 <= i < c.len() && c[i] == (name, v) && forall|j: int| 0 <= j < i ==> (#[trigger] c[j]).0 != name
}

/// A claim document says nothing under a name.
pub open spec fn is_silent(c: ClaimsView, name: Seq<char>) -> bool {
    forall|i: int| 0 <= i < c.len() ==> (#[trigger] c[i]).0 != name
}

proof fn lemma_member_from(c: ClaimsView, name: Seq<char>, i: int)
    requires
        0 <= i <= c.len(),
        forall|j: int| 0 <= j < i ==> (#[trigger] c[j]).0 != name,
    ensures
        match member_from(c, name, i) {
            Some(v) => says(c, name, v),
            None => is_silent(c, name),
        },
    decreases c.len() - i,
{
    if i < c.len() {
        if c[i].0 == name {
            assert(c[i] == (name, c[i].1));
        } else {
            lemma_member_from(c, name, i + 1);
        }
    }
}

proof fn lemma_says_one(c: ClaimsView, name: Seq<char>, v: ClaimView, w: ClaimView)
    requires
        says(c, name, v),
        says(c, name, w),
    ensures
        v == w,
{
    let i = choose|i: int|
        #![trigger c[i]]
        0 <= i < c.len() && c[i] == (name, v) && forall|j: int| 0 <= j < i ==> (#[trigger] c[j]).0 != name;
    let k = choose|i: int|
        #![trigger c[i]]
        0 <= i < c.len() && c[i] == (name, w) && forall|j: int| 0 <= j < i ==> (#[trigger] c[j]).0 != name;
    if i < k {
        assert(c[i].0 == name);
    }
    if k < i {
        assert(c[k].0 == name);
    }
}

/// The member under a name is what the first member of that name says.
pub proof fn law_member_is_the_first(c: ClaimsView, name: Seq<char>, v: ClaimView)
    ensures
        member(c, name) == Some(v) <==> says(c, name, v),
        member(c, name) is None <==> is_silent(c, name),
{
    lemma_member_from(c, name, 0);
    if says(c, name, v) {
        let i = choose|i: int|
            #![trigger c[i]]
            0 <= i < c.len() && c[i] == (name, v) && forall|j: int|
                0 <= j < i ==> (#[trigger] c[j]).0 != name;
        assert(c[i].0 == name);
        if member(c, name) is Some {
            lemma_says_one(c, name, v, member(c, name)->0);
        }
    }
    if is_silent(c, name) {
        if member(c, name) is Some {
            let w = member(c, name)->0;
            let i = choose|i: int|
                #![trigger c[i]]
                0 <= i < c.len() && c[i] == (name, w) && forall|j: int|
                    0 <= j < i ==> (#[trigger] c[j]).0 != name;
            assert(c[i].0 == name);
        }
    }
}

/// A claim is read as text where it is text, and as a number where it is a number that
/// fits.
pub proof fn law_claim_by_its_kind(c: ClaimsView, name: Seq<char>, s: Seq<char>, n: i64, u: u64)
    ensures
        text_claim(c, name) == Some(s) <==> says(c, name, ClaimView::Text(s)),
        filled_claim(c, name) == Some(s) <==> says(c, name, ClaimView::Text(s)) && s.len() > 0,
        i64_claim(c, name) == Some(n) <==> exists|x: Option<u64>| #[trigger]
            says(c, name, ClaimView::Number(Some(n), x)),
        u64_claim(c, name) == Some(u) <==> exists|x: Option<i64>| #[trigger]
            says(c, name, ClaimView::Number(x, Some(u))),
{
    law_member_is_the_first(c, name, ClaimView::Text(s));
    if let Some(v) = member(c, name) {
        law_member_is_the_first(c, name, v);
        if let ClaimView::Number(a, b) = v {
            assert(says(c, name, ClaimView::Number(a, b)));
        }
    }
    if exists|x: Option<u64>| #[trigger] says(c, name, ClaimView::Number(Some(n), x)) {
        let x = choose|x: Option<u64>| #[trigger] says(c, name, ClaimView::Number(Some(n), x));
        law_member_is_the_first(c, name, ClaimView::Number(Some(n), x));
    }
    if exists|x: Option<i64>| #[trigger] says(c, name, ClaimView::Number(x, Some(u))) {
        let x = choose|x: Option<i64>| #[trigger] says(c, name, ClaimView::Number(x, Some(u)));
        law_member_is_the_first(c, name, ClaimView::Number(x, Some(u)));
    }
}

/// The groups that a list names are its strings, one after the other, without the empty
/// ones and without what is no string.
pub proof fn law_groups_of_a_list(a: Seq<Option<Seq<char>>>, b: Seq<Option<Seq<char>>>, s: Seq<char>)
    ensures
        filled_items(a + b) == filled_items(a) + filled_items(b),
        filled_items(seq![Some(s)]) == (if s.len() > 0 {
            seq![s]
        } else {
            Seq::empty()
        }),
        filled_items(seq![None]) == Seq::<Seq<char>>::empty(),
        filled_items(Seq::empty()) == Seq::<Seq<char>>::empty(),
    decreases b.len(),
{
    reveal_with_fuel(filled_items, 2);
    let one = seq![Some(s)];
    let none: Seq<Option<Seq<char>>> = seq![None];
    assert(one.drop_last() =~= Seq::empty());
    assert(none.drop_last() =~= Seq::empty());
    if b.len() == 0 {
        assert(a + b =~= a);
    } else {
        law_groups_of_a_list(a, b.drop_last(), s);
        assert((a + b).drop_last() =~= a + b.drop_last());
        assert((a + b).last() == b.last());
        assert(filled_items(a + b) =~= filled_items(a) + filled_items(b));
    }
    assert(filled_items(one) =~= (if s.len() > 0 {
        seq![s]
    } else {
        Seq::empty()
    }));
}

/// The groups under a name are those of a list, or the words of a text, and none otherwise.
pub proof fn law_groups_under_a_name(
    c: ClaimsView,
    name: Seq<char>,
    items: Seq<Option<Seq<char>>>,
    s: Seq<char>,
)
    ensures
        says(c, name, ClaimView::List(items)) ==> groups_of(c, name) == filled_items(items),
        says(c, name, ClaimView::Text(s)) ==> groups_of(c, name) == words(s),
        is_silent(c, name) || says(c, name, ClaimView::Null) || says(c, name, ClaimView::Bool(true))
            || says(c, name, ClaimView::Bool(false)) ==> groups_of(c, name) == Seq::<
            Seq<char>,
        >::empty(),
        forall|a: Option<i64>, b: Option<u64>| #[trigger]
            says(c, name, ClaimView::Number(a, b)) ==> groups_of(c, name) == Seq::<
                Seq<char>,
            >::empty(),
        forall|k: Seq<Seq<char>>| #[trigger]
            says(c, name, ClaimView::Object(k)) ==> groups_of(c, name) == Seq::<
                Seq<char>,
            >::empty(),
{
    law_member_is_the_first(c, name, ClaimView::List(items));
    law_member_is_the_first(c, name, ClaimView::Text(s));
    law_member_is_the_first(c, name, ClaimView::Null);
    law_member_is_the_first(c, name, ClaimView::Bool(true));
    law_member_is_the_first(c, name, ClaimView::Bool(false));
    assert forall|a: Option<i64>, b: Option<u64>| #[trigger] says(
        c,
        name,
        ClaimView::Number(a, b),
    ) implies groups_of(c, name) == Seq::<Seq<char>>::empty() by {
        law_member_is_the_first(c, name, ClaimView::Number(a, b));
    }
    assert forall|k: Seq<Seq<char>>| #[trigger] says(c, name, ClaimView::Object(k)) implies groups_of(
        c,
        name,
    ) == Seq::<Seq<char>>::empty() by {
        law_member_is_the_first(c, name, ClaimView::Object(k));
    }
}

/// A name without the slashes at its end.
pub proof fn law_slashless(s: Seq<char>)
    ensures
        slashless(s).len() <= s.len(),
        forall|i: int| 0 <= i < slashless(s).len() ==> #[trigger] slashless(s)[i] == s[i],
        forall|i: int| slashless(s).len() <= i < s.len() ==> #[trigger] s[i] == '/',
        slashless(s).len() > 0 ==> slashless(s).last() != '/',
    decreases s.len(),
{
    if s.len() > 0 && s.last() == '/' {
        law_slashless(s.drop_last());
        assert forall|i: int| slashless(s).len() <= i < s.len() implies #[trigger] s[i] == '/' by {
            if i < s.len() - 1 {
                assert(s.drop_last()[i] == '/');
            }
        }
    }
}

/// An accepted bearer token stands for the user whom the configured claim names, where that
/// is text and not empty, and else for its subject, and for the groups under the
/// configured claim.
pub proof fn law_bearer_names_the_user(
    cfg: OidcConfig,
    c: ClaimsView,
    unix_now: u64,
    name: Seq<char>,
    sub: Seq<char>,
)
    requires
        bearer_claims(cfg, c, unix_now) is Ok,
    ensures
        ({
            let id = bearer_claims(cfg, c, unix_now)->Ok_0.0;
            let claim = cfg.username_claim@;
            let named = says(c, claim, ClaimView::Text(name)) && name.len() > 0;
            let unnamed = forall|t: Seq<char>|
                #[trigger] says(c, claim, ClaimView::Text(t)) ==> t.len() == 0;
            &&& named ==> id.username == name
            &&& unnamed && says(c, "sub"@, ClaimView::Text(sub)) ==> id.username == sub
            &&& unnamed && (forall|t: Seq<char>| !#[trigger] says(c, "sub"@, ClaimView::Text(t)))
                ==> id.username == Seq::<char>::empty()
            &&& id.groups == groups_of(c, cfg.groups_claim@)
        }),
{
    let claim = cfg.username_claim@;
    law_claim_by_its_kind(c, claim, name, 0, 0);
    law_claim_by_its_kind(c, "sub"@, sub, 0, 0);
    if let Some(t) = text_claim(c, claim) {
        law_claim_by_its_kind(c, claim, t, 0, 0);
    }
    if let Some(t) = text_claim(c, "sub"@) {
        law_claim_by_its_kind(c, "sub"@, t, 0, 0);
    }
}

/// A bearer token stands for the user and groups for whom an ID token with the same claims
/// and that subject would.
pub proof fn law_bearer_and_login_agree(cfg: OidcConfig, c: ClaimsView, g: GrantView, unix_now: u64)
    requires
        bearer_claims(cfg, c, unix_now) is Ok,
        g.claims == c,
        says(c, "sub"@, ClaimView::Text(g.subject)),
    ensures
        bearer_claims(cfg, c, unix_now)->Ok_0.0 == id_token_identity(cfg, g),
        !cfg.userinfo ==> bearer_claims(cfg, c, unix_now)->Ok_0.0 == granted_identity(cfg, g),
{
    law_claim_by_its_kind(c, "sub"@, g.subject, 0, 0);
}

/// A login is that of the user whom the configured claim of the ID token names, and else of
/// the subject. What the user-info endpoint says instead wins, where it was asked and says
/// something.
pub proof fn law_login_names_the_user(cfg: OidcConfig, g: GrantView, name: Seq<char>)
    ensures
        ({
            let id = id_token_identity(cfg, g);
            let all = granted_identity(cfg, g);
            let claim = cfg.username_claim@;
            &&& says(g.claims, claim, ClaimView::Text(name)) && name.len() > 0 ==> id.username
                == name
            &&& (forall|t: Seq<char>|
                #[trigger] says(g.claims, claim, ClaimView::Text(t)) ==> t.len() == 0)
                ==> id.username == g.subject
            &&& id.groups == groups_of(g.claims, cfg.groups_claim@)
            &&& !cfg.userinfo || !(g.userinfo is Claims) ==> all == id
            &&& cfg.userinfo ==> match g.userinfo {
                UserInfoView::Claims(c) => {
                    &&& says(c, claim, ClaimView::Text(name)) && name.len() > 0 ==> all.username
                        == name
                    &&& (forall|t: Seq<char>|
                        #[trigger] says(c, claim, ClaimView::Text(t)) ==> t.len() == 0)
                        ==> all.username == id.username
                    &&& groups_of(c, cfg.groups_claim@).len() > 0 ==> all.groups == groups_of(
                        c,
                        cfg.groups_claim@,
                    )
                    &&& groups_of(c, cfg.groups_claim@).len() == 0 ==> all.groups == id.groups
                },
                _ => true,
            }
        }),
{
    let claim = cfg.username_claim@;
    law_claim_by_its_kind(g.claims, claim, name, 0, 0);
    if let Some(t) = text_claim(g.claims, claim) {
        law_claim_by_its_kind(g.claims, claim, t, 0, 0);
    }
    if let UserInfoView::Claims(c) = g.userinfo {
        law_claim_by_its_kind(c, claim, name, 0, 0);
        if let Some(t) = text_claim(c, claim) {
            law_claim_by_its_kind(c, claim, t, 0, 0);
        }
    }
}

/// The audience of a token holds one of the accepted names: it is one, or it lists one.
pub open spec fn is_for(c: ClaimsView, accepted: Seq<Seq<char>>) -> bool {
    ||| exists|s: Seq<char>| #[trigger] says(c, "aud"@, ClaimView::Text(s)) && accepted.contains(s)
    ||| exists|v: Seq<Option<Seq<char>>>, i: int|
        #[trigger] says(c, "aud"@, ClaimView::List(v)) && 0 <= i < v.len() && (
            #[trigger] v[i] matches Some(s) && accepted.contains(s))
}

pub(crate) proof fn lemma_is_for(c: ClaimsView, accepted: Seq<Seq<char>>)
    ensures
        crate::oidc::bearer::aud_accepted(member(c, "aud"@), accepted) == is_for(c, accepted),
{
    let aud = member(c, "aud"@);
    if let Some(v) = aud {
        law_member_is_the_first(c, "aud"@, v);
    }
    if crate::oidc::bearer::aud_accepted(aud, accepted) {
        match aud {
            Some(ClaimView::Text(s)) => {
                assert(says(c, "aud"@, ClaimView::Text(s)));
            },
            Some(ClaimView::List(v)) => {
                assert(says(c, "aud"@, ClaimView::List(v)));
                let i = choose|i: int|
                    0 <= i < v.len() && (#[trigger] v[i] matches Some(s) && accepted.contains(s));
                assert(v[i] is Some);
            },
            _ => {},
        }
    }
    if is_for(c, accepted) {
        if exists|s: Seq<char>| #[trigger] says(c, "aud"@, ClaimView::Text(s)) && accepted.contains(s) {
            let s = choose|s: Seq<char>| #[trigger]
                says(c, "aud"@, ClaimView::Text(s)) && accepted.contains(s);
            law_member_is_the_first(c, "aud"@, ClaimView::Text(s));
        } else {
            let (v, i) = choose|v: Seq<Option<Seq<char>>>, i: int|
                #[trigger] says(c, "aud"@, ClaimView::List(v)) && 0 <= i < v.len() && (
                    #[trigger] v[i] matches Some(s) && accepted.contains(s));
            law_member_is_the_first(c, "aud"@, ClaimView::List(v));
        }
    }
}

/// The issuer that a token names is the configured one, with or without the slashes at its
/// end.
pub open spec fn is_from(c: ClaimsView, issuer: Seq<char>) -> bool {
    says(c, "iss"@, ClaimView::Text(issuer)) || says(c, "iss"@, ClaimView::Text(slashless(issuer)))
}

pub(crate) proof fn lemma_is_from(cfg: OidcConfig, c: ClaimsView)
    ensures
        is_from(c, cfg.issuer@) <==> (text_claim(c, "iss"@) matches Some(iss)
            && crate::oidc::bearer::names_issuer(cfg, iss)),
{
    law_claim_by_its_kind(c, "iss"@, cfg.issuer@, 0, 0);
    law_claim_by_its_kind(c, "iss"@, slashless(cfg.issuer@), 0, 0);
}

/// A bearer token is accepted if and only if it comes from the issuer, is for one of the
/// audiences, has not expired, and is valid by now or within thirty seconds. The moment at
/// which it expires goes along.
pub proof fn law_bearer_is_accepted(cfg: OidcConfig, c: ClaimsView, unix_now: u64)
    ensures
        bearer_claims(cfg, c, unix_now) is Ok <==> {
            &&& is_from(c, cfg.issuer@)
            &&& is_for(c, texts(cfg.bearer_audiences@))
            &&& u64_claim(c, "exp"@) is Some && u64_claim(c, "exp"@)->0 > unix_now
            &&& u64_claim(c, "nbf"@) is Some ==> u64_claim(c, "nbf"@)->0 <= unix_now + 30
        },
        bearer_claims(cfg, c, unix_now) matches Ok((_, exp)) ==> u64_claim(c, "exp"@) == Some(exp),
{
    lemma_is_from(cfg, c);
    lemma_is_for(c, texts(cfg.bearer_audiences@));
}

/// Why a bearer token is refused: the first of these that holds.
pub proof fn law_bearer_refusals(cfg: OidcConfig, c: ClaimsView, unix_now: u64)
    ensures
        ({
            let r = bearer_claims(cfg, c, unix_now);
            let exp = u64_claim(c, "exp"@);
            let nbf = u64_claim(c, "nbf"@);
            if text_claim(c, "iss"@) is None {
                r == Err::<(IdentityView, u64), _>(BearerError::MissingIssuer)
            } else if !is_from(c, cfg.issuer@) {
                r == Err::<(IdentityView, u64), _>(BearerError::WrongIssuer)
            } else if !is_for(c, texts(cfg.bearer_audiences@)) {
                r == Err::<(IdentityView, u64), _>(BearerError::WrongAudience)
            } else if exp is None {
                r == Err::<(IdentityView, u64), _>(BearerError::MissingExpiry)
            } else if exp->0 <= unix_now {
                r == Err::<(IdentityView, u64), _>(BearerError::Expired)
            } else if nbf is Some && nbf->0 > unix_now + 30 {
                r == Err::<(IdentityView, u64), _>(BearerError::NotYetValid)
            } else {
                r is Ok
            }
        }),
{
    lemma_is_from(cfg, c);
    lemma_is_for(c, texts(cfg.bearer_audiences@));
}

/// A JWS is signed by the provider if and only if one of its keys verifies it: one that has
/// the name that the token asks for, where it asks for one. A keyed hash of another length
/// than that of its algorithm verifies nothing.
pub proof fn law_signed_by_a_key(keys: Seq<Seq<char>>, jws: JwsView)
    ensures
        signed_by_one_of(keys, jws) <==> exists|i: int|
            0 <= i < keys.len() && (jws.kid is None || jwk_key_id(#[trigger] keys[i]) == jws.kid)
                && jwk_verifies(keys[i], jws.alg, encode_utf8(jws.signed_input), jws.signature) && (
            jws.alg == "HS256"@ ==> jws.signature.len() == 32) && (jws.alg == "HS384"@
                ==> jws.signature.len() == 48) && (jws.alg == "HS512"@ ==> jws.signature.len() == 64),
{
    reveal_strlit("HS256");
    reveal_strlit("HS384");
    reveal_strlit("HS512");
    assert("HS256"@[2] == '2' && "HS384"@[2] == '3' && "HS512"@[2] == '5');
    if signed_by_one_of(keys, jws) {
        let i = choose|i: int|
            0 <= i < keys.len() && crate::oidc::jws::key_is_tried(
                jwk_key_id(#[trigger] keys[i]),
                jws.kid,
            ) && crate::oidc::jws::mac_len_fits(jws.alg, jws.signature) && jwk_verifies(
                keys[i],
                jws.alg,
                encode_utf8(jws.signed_input),
                jws.signature,
            );
        assert(jwk_verifies(keys[i], jws.alg, encode_utf8(jws.signed_input), jws.signature));
    }
}

/// A bearer token is accepted if and only if it is a JWS that one of the provider's keys
/// signed and whose claims are accepted. It then stands for what they say.
pub proof fn law_bearer_is_signed(
    cfg: OidcConfig,
    jwks: Option<Seq<Seq<char>>>,
    token: Seq<char>,
    unix_now: u64,
)
    ensures
        ({
            let r = bearer_checked(cfg, jwks, token, unix_now);
            &&& r is Ok <==> jws_in(token) is Ok && jwks is Some && signed_by_one_of(
                jwks->0,
                jws_in(token)->Ok_0,
            ) && bearer_claims(cfg, jws_in(token)->Ok_0.payload, unix_now) is Ok
            &&& r is Ok ==> r == bearer_claims(cfg, jws_in(token)->Ok_0.payload, unix_now)
            &&& jws_in(token) matches Err(e) ==> r == Err::<(IdentityView, u64), _>(
                BearerError::Jws(e),
            )
            &&& jws_in(token) is Ok && jwks is None ==> r == Err::<(IdentityView, u64), _>(
                BearerError::NoKeys,
            )
            &&& jws_in(token) is Ok && jwks is Some && !signed_by_one_of(
                jwks->0,
                jws_in(token)->Ok_0,
            ) ==> r == Err::<(IdentityView, u64), _>(BearerError::BadSignature)
        }),
{
}

/// A token that was seen before, and whose time is not over, is answered from memory, under
/// its hash. Any other is checked anew.
pub proof fn law_bearer_from_memory(
    cfg: OidcConfig,
    p: ProviderView,
    token: Seq<char>,
    unix_now: u64,
)
    ensures
        ({
            let seen = lookup(p.tokens, sha256(encode_utf8(token)));
            let e = seen->Some_0;
            let r = bearer_validated(cfg, p, token, unix_now).0;
            &&& seen is Some && e.3 > unix_now ==> r == Ok::<_, BearerError>(
                IdentityView { username: e.1, groups: e.2 },
            )
            &&& seen is None || e.3 <= unix_now ==> match bearer_checked(
                cfg,
                p.jwks,
                token,
                unix_now,
            ) {
                Ok((id, _)) => r == Ok::<_, BearerError>(id),
                Err(e) => r == Err::<IdentityView, _>(e),
            }
        }),
{
}

} // verus!
