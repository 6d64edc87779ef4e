//! The cache of validated bearer tokens: an `lru::LruCache` keyed by the
//! SHA-256 of the token, and the hash itself by way of `sha2`.
use crate::oidc::claims::texts;
use sha2::Digest;
use vstd::prelude::*;

verus! {

/// Who a request comes from.
pub struct Identity {
    pub username: String,
    pub groups: Vec<String>,
}

/// Who a request comes from, by value.
pub struct IdentityView {
    pub username: Seq<char>,
    pub groups: Seq<Seq<char>>,
}

impl View for Identity {
    type V = IdentityView;

    open spec fn view(&self) -> IdentityView {
        IdentityView { username: self.username@, groups: texts(self.groups@) }
    }
}

/// A copy of a list of strings.
pub fn copy_strings(v: &Vec<String>) -> (r: Vec<String>)
    ensures
        texts(r@) == texts(v@),
{
    let n: usize = v.len();
    let mut out: Vec<String> = Vec::new();
    let mut i: usize = 0;
    while i < n
        invariant
            n == v@.len(),
            i <= n,
            out@.len() == i,
            forall|j: int| 0 <= j < i ==> (#[trigger] out@[j])@ == v@[j]@,
        decreases n - i,
    {
        out.push(v[i].clone());
        i = i + 1;
    }
    assert(texts(out@) =~= texts(v@));
    out
}

impl Identity {
    /// A copy of the identity.
    pub fn copy(&self) -> (r: Identity)
        ensures
            r@ == self@,
    {
        Identity { username: self.username.clone(), groups: copy_strings(&self.groups) }
    }
}

/// A validated token: who it stands for, and the second at which it expires.
pub struct BearerCacheEntry {
    pub identity: Identity,
    pub expires_at: u64,
}

#[verifier::external_type_specification]
#[verifier::external_body]
#[verifier::reject_recursive_types(K)]
#[verifier::reject_recursive_types(V)]
#[verifier::reject_recursive_types(S)]
pub struct ExLruCache<K, V, S>(lru::LruCache<K, V, S>);

#[verifier::external_type_specification]
#[verifier::external_body]
pub struct ExLruHasher(lru::DefaultHasher);

/// A cached token, by value: its hash, user name, groups and expiry.
pub type CachedToken = (Seq<u8>, Seq<char>, Seq<Seq<char>>, u64);

/// The tokens in a cache, the most recently used first.
pub uninterp spec fn cached(
    c: lru::LruCache<[u8; 32], BearerCacheEntry>,
) -> Seq<(Seq<u8>, Seq<char>, Seq<Seq<char>>, u64)>;

/// The most tokens that a cache holds.
pub uninterp spec fn cache_cap(c: lru::LruCache<[u8; 32], BearerCacheEntry>) -> nat;

/// A token as the cache holds it.
pub open spec fn cached_entry(key: Seq<u8>, e: BearerCacheEntry) -> CachedToken {
    (key, e.identity@.username, e.identity@.groups, e.expires_at)
}

/// The first token from `i` on under a hash.
pub open spec fn lookup_from(s: Seq<CachedToken>, key: Seq<u8>, i: int) -> Option<CachedToken>
    decreases s.len() - i,
{
    if i < 0 || i >= s.len() {
        None
    } else if s[i].0 == key {
        Some(s[i])
    } else {
        lookup_from(s, key, i + 1)
    }
}

/// The token under a hash.
pub open spec fn lookup(s: Seq<CachedToken>, key: Seq<u8>) -> Option<CachedToken> {
    lookup_from(s, key, 0)
}

/// The tokens under other hashes.
pub open spec fn without(s: Seq<CachedToken>, key: Seq<u8>) -> Seq<CachedToken>
    decreases s.len(),
{
    if s.len() == 0 {
        Seq::empty()
    } else if s.last().0 == key {
        without(s.drop_last(), key)
    } else {
        without(s.drop_last(), key).push(s.last())
    }
}

/// The tokens after a look at the one under a hash: it comes first.
pub open spec fn touched(s: Seq<CachedToken>, key: Seq<u8>) -> Seq<CachedToken> {
    match lookup(s, key) {
        Some(e) => seq![e] + without(s, key),
        None => s,
    }
}

/// The tokens after one was put in: it comes first, in the place of one under
/// the same hash, or of the least recently used one where the cache is full.
pub open spec fn put_in(s: Seq<CachedToken>, cap: nat, e: CachedToken) -> Seq<CachedToken> {
    if lookup(s, e.0) is Some {
        seq![e] + without(s, e.0)
    } else if s.len() == cap && s.len() > 0 {
        seq![e] + s.drop_last()
    } else {
        seq![e] + s
    }
}

/// `lru::LruCache::sparse`: an empty cache with a limit.
#[verifier::external_body]
pub(crate) fn cache_new(cap: usize) -> (r: lru::LruCache<[u8; 32], BearerCacheEntry>)
    requires
        cap > 0,
    ensures
        cached(r) == Seq::<CachedToken>::empty(),
        cache_cap(r) == cap,
{
    lru::LruCache::sparse(std::num::NonZeroUsize::new(cap).unwrap())
}

/// `lru::LruCache::get`: the token under a hash, which becomes the most
/// recently used one.
#[verifier::external_body]
pub(crate) fn cache_get(
    c: &mut lru::LruCache<[u8; 32], BearerCacheEntry>,
    key: &[u8; 32],
) -> (r: Option<(Identity, u64)>)
    ensures
        match r {
            Some((id, exp)) => lookup(cached(*old(c)), key@) == Some(
                (key@, id@.username, id@.groups, exp),
            ),
            None => lookup(cached(*old(c)), key@) is None,
        },
        cached(*final(c)) == touched(cached(*old(c)), key@),
        cache_cap(*final(c)) == cache_cap(*old(c)),
{
    c.get(key).map(|e| (e.identity.copy(), e.expires_at))
}

/// `lru::LruCache::pop`: takes the token under a hash out.
#[verifier::external_body]
pub(crate) fn cache_pop(c: &mut lru::LruCache<[u8; 32], BearerCacheEntry>, key: &[u8; 32])
    ensures
        cached(*final(c)) == without(cached(*old(c)), key@),
        cache_cap(*final(c)) == cache_cap(*old(c)),
{
    c.pop(key);
}

/// `lru::LruCache::put`: puts a token in as the most recently used one.
#[verifier::external_body]
pub(crate) fn cache_put(
    c: &mut lru::LruCache<[u8; 32], BearerCacheEntry>,
    key: [u8; 32],
    e: BearerCacheEntry,
)
    ensures
        cached(*final(c)) == put_in(cached(*old(c)), cache_cap(*old(c)), cached_entry(key@, e)),
        cache_cap(*final(c)) == cache_cap(*old(c)),
{
    c.put(key, e);
}

/// The SHA-256 of a row of bytes.
pub uninterp spec fn sha256(b: Seq<u8>) -> Seq<u8>;

/// `sha2::Sha256::digest`: the SHA-256 of a row of bytes.
#[verifier::external_body]
pub(crate) fn sha256_of(b: &[u8]) -> (r: [u8; 32])
    ensures
        r@ == sha256(b@),
{
    sha2::Sha256::digest(b).into()
}

pub proof fn lemma_lookup(s: Seq<CachedToken>, key: Seq<u8>, i: int)
    requires
        0 <= i <= s.len(),
    ensures
        match lookup_from(s, key, i) {
            Some(e) => e.0 == key && exists|j: int| i <= j < s.len() && #[trigger] s[j] == e,
            None => forall|j: int| i <= j < s.len() ==> (#[trigger] s[j]).0 != key,
        },
    decreases s.len() - i,
{
    if i < s.len() && s[i].0 != key {
        lemma_lookup(s, key, i + 1);
    }
}

pub proof fn lemma_without(s: Seq<CachedToken>, key: Seq<u8>)
    ensures
        forall|j: int| 0 <= j < without(s, key).len() ==> (#[trigger] without(s, key)[j]).0 != key,
        lookup(without(s, key), key) is None,
    decreases s.len(),
{
    if s.len() > 0 {
        lemma_without(s.drop_last(), key);
    }
    lemma_lookup(without(s, key), key, 0);
}

/// A token that was just put in is found, and one that was taken out is not.
pub proof fn law_cache_returns_what_was_put(s: Seq<CachedToken>, cap: nat, e: CachedToken)
    ensures
        lookup(put_in(s, cap, e), e.0) == Some(e),
        lookup(without(s, e.0), e.0) is None,
{
    lemma_without(s, e.0);
    assert(put_in(s, cap, e)[0] == e);
}

/// Looking a token up does not change what is found.
pub proof fn law_touch_keeps_the_token(s: Seq<CachedToken>, key: Seq<u8>)
    ensures
        lookup(touched(s, key), key) == lookup(s, key),
{
    lemma_lookup(s, key, 0);
    match lookup(s, key) {
        Some(e) => {
            assert(touched(s, key)[0] == e);
        },
        None => {},
    }
}

} // verus!
