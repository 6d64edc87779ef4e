//! A small map keyed by strings, kept as a list of distinct keys in the order
//! in which they were first inserted.
use crate::text::same_str;
use vstd::prelude::*;

verus! {

/// No key occurs twice.
pub open spec fn keys_distinct<K, V>(p: Seq<(K, V)>) -> bool {
    forall|i: int, j: int| 0 <= i < j < p.len() ==> (#[trigger] p[i]).0 != (#[trigger] p[j]).0
}

/// The map that a list of key/value pairs describes; a later pair wins.
pub open spec fn pairs_map<K, V>(p: Seq<(K, V)>) -> Map<K, V>
    decreases p.len(),
{
    if p.len() == 0 {
        Map::empty()
    } else {
        pairs_map(p.drop_last()).insert(p.last().0, p.last().1)
    }
}

pub proof fn lemma_pairs_map<K, V>(p: Seq<(K, V)>)
    requires
        keys_distinct(p),
    ensures
        forall|i: int|
            0 <= i < p.len() ==> pairs_map(p).dom().contains((#[trigger] p[i]).0) && pairs_map(
                p,
            )[p[i].0] == p[i].1,
        forall|k: K| #[trigger]
            pairs_map(p).dom().contains(k) ==> exists|i: int| 0 <= i < p.len() && p[i].0 == k,
        pairs_map(p).dom().finite(),
        pairs_map(p).dom().len() == p.len(),
    decreases p.len(),
{
    if p.len() > 0 {
        let q = p.drop_last();
        lemma_pairs_map(q);
        assert forall|i: int| 0 <= i < p.len() implies pairs_map(p).dom().contains(
            (#[trigger] p[i]).0,
        ) && pairs_map(p)[p[i].0] == p[i].1 by {
            if i < q.len() {
                assert(q[i] == p[i]);
                assert(p[i].0 != p[p.len() - 1].0);
            }
        }
        assert forall|k: K| #[trigger] pairs_map(p).dom().contains(k) implies exists|i: int|
            0 <= i < p.len() && p[i].0 == k by {
            if k == p.last().0 {
                assert(p[p.len() - 1].0 == k);
            } else {
                let i = choose|i: int| 0 <= i < q.len() && q[i].0 == k;
                assert(p[i].0 == k);
            }
        }
        assert(!pairs_map(q).dom().contains(p.last().0)) by {
            if pairs_map(q).dom().contains(p.last().0) {
                let i = choose|i: int| 0 <= i < q.len() && q[i].0 == p.last().0;
                assert(p[i].0 == p[p.len() - 1].0);
            }
        }
    }
}

/// Replacing the value of a pair stores it under the key.
pub proof fn lemma_update_pair<K, V>(p: Seq<(K, V)>, i: int, v: V)
    requires
        keys_distinct(p),
        0 <= i < p.len(),
    ensures
        keys_distinct(p.update(i, (p[i].0, v))),
        pairs_map(p.update(i, (p[i].0, v))) == pairs_map(p).insert(p[i].0, v),
{
    let q = p.update(i, (p[i].0, v));
    assert(keys_distinct(q)) by {
        assert forall|a: int, b: int| 0 <= a < b < q.len() implies (#[trigger] q[a]).0 != (
        #[trigger] q[b]).0 by {
            assert(p[a].0 != p[b].0);
        }
    }
    lemma_pairs_map(p);
    lemma_pairs_map(q);
    let want = pairs_map(p).insert(p[i].0, v);
    assert forall|k: K| #[trigger] pairs_map(q).dom().contains(k) implies want.dom().contains(k)
        && pairs_map(q)[k] == want[k] by {
        let j = choose|j: int| 0 <= j < q.len() && q[j].0 == k;
        assert(p[j].0 == k);
        if j != i {
            assert(q[j] == p[j]);
        }
    }
    assert forall|k: K| #[trigger] want.dom().contains(k) implies pairs_map(q).dom().contains(k) by {
        if k == p[i].0 {
            assert(q[i].0 == k);
        } else {
            let j = choose|j: int| 0 <= j < p.len() && p[j].0 == k;
            assert(q[j].0 == k);
        }
    }
    assert(pairs_map(q) =~= want);
}

/// A pair with a new key stores its value under the key.
pub proof fn lemma_push_pair<K, V>(p: Seq<(K, V)>, k: K, v: V)
    requires
        keys_distinct(p),
        !pairs_map(p).dom().contains(k),
    ensures
        keys_distinct(p.push((k, v))),
        pairs_map(p.push((k, v))) == pairs_map(p).insert(k, v),
{
    let q = p.push((k, v));
    lemma_pairs_map(p);
    assert(q.drop_last() =~= p);
    assert forall|a: int, b: int| 0 <= a < b < q.len() implies (#[trigger] q[a]).0 != (#[trigger] q[b]).0 by {
        if b < p.len() {
            assert(p[a].0 != p[b].0);
        } else {
            assert(pairs_map(p).dom().contains(p[a].0));
        }
    }
}

/// Taking a pair out takes its key out.
pub proof fn lemma_remove_pair<K, V>(p: Seq<(K, V)>, i: int)
    requires
        keys_distinct(p),
        0 <= i < p.len(),
    ensures
        keys_distinct(p.remove(i)),
        pairs_map(p.remove(i)) == pairs_map(p).remove(p[i].0),
{
    let q = p.remove(i);
    assert forall|a: int, b: int| 0 <= a < b < q.len() implies (#[trigger] q[a]).0 != (#[trigger] q[b]).0 by {
        let a0 = if a < i {
            a
        } else {
            a + 1
        };
        let b0 = if b < i {
            b
        } else {
            b + 1
        };
        assert(p[a0].0 != p[b0].0);
    }
    lemma_pairs_map(p);
    lemma_pairs_map(q);
    let want = pairs_map(p).remove(p[i].0);
    assert forall|k: K| #[trigger] pairs_map(q).dom().contains(k) implies want.dom().contains(k)
        && pairs_map(q)[k] == want[k] by {
        let j = choose|j: int| 0 <= j < q.len() && q[j].0 == k;
        let j0 = if j < i {
            j
        } else {
            j + 1
        };
        assert(p[j0] == q[j]);
        assert(p[j0].0 != p[i].0);
    }
    assert forall|k: K| #[trigger] want.dom().contains(k) implies pairs_map(q).dom().contains(k) by {
        let j = choose|j: int| 0 <= j < p.len() && p[j].0 == k;
        let j1 = if j < i {
            j
        } else {
            j - 1
        };
        assert(q[j1].0 == k);
    }
    assert(pairs_map(q) =~= want);
}

/// The part of a map whose values satisfy a condition.
pub open spec fn kept_by<K, V>(m: Map<K, V>, pred: spec_fn(V) -> bool) -> Map<K, V> {
    m.restrict(m.dom().filter(|k: K| pred(m[k])))
}

/// A map with its values taken by their views.
pub open spec fn viewed<V: View>(m: Map<Seq<char>, V>) -> Map<Seq<char>, V::V> {
    m.map_values(|v: V| v@)
}

/// Storing a value stores its view.
pub proof fn lemma_viewed_insert<V: View>(m: Map<Seq<char>, V>, k: Seq<char>, v: V)
    ensures
        viewed(m.insert(k, v)) == viewed(m).insert(k, v@),
{
    assert(viewed(m.insert(k, v)) =~= viewed(m).insert(k, v@));
}

/// Removing a key removes its view.
pub proof fn lemma_viewed_remove<V: View>(m: Map<Seq<char>, V>, k: Seq<char>)
    ensures
        viewed(m.remove(k)) == viewed(m).remove(k),
{
    assert(viewed(m.remove(k)) =~= viewed(m).remove(k));
}

/// A condition on views selects the same keys.
pub proof fn lemma_viewed_kept<V: View>(
    m: Map<Seq<char>, V>,
    pred: spec_fn(V) -> bool,
    by_view: spec_fn(V::V) -> bool,
)
    requires
        forall|v: V| #[trigger] pred(v) == by_view(v@),
    ensures
        viewed(kept_by(m, pred)) == kept_by(viewed(m), by_view),
{
    assert(viewed(kept_by(m, pred)) =~= kept_by(viewed(m), by_view));
}

/// A map keyed by strings.
pub struct StrMap<V> {
    entries: Vec<(String, V)>,
}

impl<V> View for StrMap<V> {
    type V = Map<Seq<char>, V>;

    open spec fn view(&self) -> Map<Seq<char>, V> {
        pairs_map(self.pairs())
    }
}

/// The pairs that a list of entries stands for.
pub open spec fn pairs_of<V>(entries: Seq<(String, V)>) -> Seq<(Seq<char>, V)> {
    Seq::new(entries.len(), |i: int| (entries[i].0@, entries[i].1))
}

impl<V> StrMap<V> {
    /// The pairs of the map in the order of first insertion.
    pub closed spec fn pairs(&self) -> Seq<(Seq<char>, V)> {
        pairs_of(self.entries@)
    }

    #[verifier::type_invariant]
    spec fn inv(&self) -> bool {
        keys_distinct(self.pairs())
    }

    /// The empty map.
    pub fn new() -> (r: Self)
        ensures
            r.pairs() == Seq::<(Seq<char>, V)>::empty(),
            r@ == Map::<Seq<char>, V>::empty(),
    {
        let r = StrMap { entries: Vec::new() };
        assert(r.pairs() =~= Seq::empty());
        r
    }

    /// The number of keys.
    pub fn len(&self) -> (r: usize)
        ensures
            r == self.pairs().len(),
            r == self@.dom().len(),
            self@.dom().finite(),
            keys_distinct(self.pairs()),
    {
        proof {
            use_type_invariant(self);
            lemma_pairs_map(self.pairs());
        }
        self.entries.len()
    }

    fn position(&self, k: &str) -> (r: Option<usize>)
        ensures
            match r {
                Some(i) => i < self.pairs().len() && self.pairs()[i as int].0 == k@
                    && self@.dom().contains(k@) && self@[k@] == self.pairs()[i as int].1,
                None => !self@.dom().contains(k@),
            },
    {
        proof {
            use_type_invariant(self);
            lemma_pairs_map(self.pairs());
        }
        let n: usize = self.entries.len();
        let mut i: usize = 0;
        while i < n
            invariant
                n == self.entries@.len(),
                i <= n,
                keys_distinct(self.pairs()),
                forall|j: int| 0 <= j < i ==> (#[trigger] self.pairs()[j]).0 != k@,
            decreases n - i,
        {
            if same_str(self.entries[i].0.as_str(), k) {
                proof {
                    lemma_pairs_map(self.pairs());
                    assert(self.pairs()[i as int].0 == k@);
                }
                return Some(i);
            }
            i = i + 1;
        }
        None
    }

    /// The value under `k`.
    pub fn get(&self, k: &str) -> (r: Option<&V>)
        ensures
            match r {
                Some(v) => self@.dom().contains(k@) && *v == self@[k@],
                None => !self@.dom().contains(k@),
            },
    {
        match self.position(k) {
            Some(i) => Some(&self.entries[i].1),
            None => None,
        }
    }

    /// Whether `k` is a key of the map.
    pub fn contains_key(&self, k: &str) -> (r: bool)
        ensures
            r == self@.dom().contains(k@),
    {
        match self.position(k) {
            Some(_) => true,
            None => false,
        }
    }

    /// Puts `v` under `k`, in the place of what was there.
    pub fn insert(&mut self, k: String, v: V)
        ensures
            final(self)@ == old(self)@.insert(k@, v),
    {
        let pos = self.position(k.as_str());
        let ghost p0 = self.pairs();
        proof {
            use_type_invariant(&*self);
            lemma_pairs_map(p0);
        }
        let mut e: Vec<(String, V)> = Vec::new();
        core::mem::swap(&mut e, &mut self.entries);
        assert(pairs_of(e@) == p0);
        match pos {
            Some(i) => {
                e[i] = (k, v);
                proof {
                    assert(pairs_of(e@) =~= p0.update(i as int, (k@, v)));
                    lemma_update_pair(p0, i as int, v);
                }
            },
            None => {
                e.push((k, v));
                proof {
                    assert(pairs_of(e@) =~= p0.push((k@, v)));
                    lemma_push_pair(p0, k@, v);
                }
            },
        }
        self.entries = e;
        assert(self.pairs() == pairs_of(e@));
    }

    /// Takes the entry at position `i` out of the map.
    pub fn remove_at(&mut self, i: usize) -> (r: (String, V))
        requires
            i < old(self).pairs().len(),
        ensures
            final(self).pairs() == old(self).pairs().remove(i as int),
            final(self)@ == old(self)@.remove(old(self).pairs()[i as int].0),
            r.0@ == old(self).pairs()[i as int].0,
            r.1 == old(self).pairs()[i as int].1,
            old(self)@.dom().contains(r.0@),
            old(self)@[r.0@] == r.1,
    {
        let ghost p0 = self.pairs();
        proof {
            use_type_invariant(&*self);
            lemma_pairs_map(p0);
        }
        let mut e: Vec<(String, V)> = Vec::new();
        core::mem::swap(&mut e, &mut self.entries);
        assert(pairs_of(e@) == p0);
        let ghost x = p0[i as int];
        let r = e.remove(i);
        proof {
            assert(pairs_of(e@) =~= p0.remove(i as int));
            lemma_remove_pair(p0, i as int);
        }
        self.entries = e;
        assert(self.pairs() == pairs_of(e@));
        r
    }

    /// Takes the value under `k` out of the map.
    pub fn remove(&mut self, k: &str) -> (r: Option<V>)
        ensures
            final(self)@ == old(self)@.remove(k@),
            match r {
                Some(v) => old(self)@.dom().contains(k@) && v == old(self)@[k@],
                None => !old(self)@.dom().contains(k@),
            },
    {
        match self.position(k) {
            Some(i) => {
                let (_, v) = self.remove_at(i);
                Some(v)
            },
            None => {
                assert(self@.remove(k@) =~= self@);
                None
            },
        }
    }

    /// Keeps the entries whose flag is set and drops the others. The flags tell
    /// which values satisfy `pred`.
    pub(crate) fn retain_flagged(&mut self, keep: &Vec<bool>, Ghost(pred): Ghost<spec_fn(V) -> bool>)
        requires
            keep@.len() == old(self).pairs().len(),
            forall|i: int|
                0 <= i < keep@.len() ==> #[trigger] keep@[i] == pred(old(self).pairs()[i].1),
        ensures
            final(self)@ == kept_by(old(self)@, pred),
    {
        let n: usize = keep.len();
        let mut i: usize = n;
        let ghost p0 = self.pairs();
        let ghost m0 = self@;
        proof {
            use_type_invariant(&*self);
            lemma_pairs_map(p0);
        }
        while i > 0
            invariant
                i <= n,
                n == keep@.len(),
                n == p0.len(),
                keys_distinct(p0),
                m0 == pairs_map(p0),
                forall|j: int| 0 <= j < n ==> #[trigger] keep@[j] == pred(p0[j].1),
                self.pairs().len() >= i,
                forall|j: int| 0 <= j < i ==> #[trigger] self.pairs()[j] == p0[j],
                forall|j: int|
                    i <= j < self.pairs().len() ==> pred((#[trigger] self.pairs()[j]).1),
                forall|k: Seq<char>| #[trigger]
                    self@.dom().contains(k) ==> m0.dom().contains(k) && self@[k] == m0[k],
                forall|k: Seq<char>|
                    m0.dom().contains(k) && !(#[trigger] self@.dom().contains(k)) ==> !pred(m0[k]),
            decreases i,
        {
            i = i - 1;
            let ghost before = self.pairs();
            let ghost mb = self@;
            assert(before[i as int] == p0[i as int]);
            if !keep[i] {
                proof {
                    lemma_pairs_map(p0);
                }
                let _gone = self.remove_at(i);
                assert forall|j: int| i <= j < self.pairs().len() implies pred(
                    (#[trigger] self.pairs()[j]).1,
                ) by {
                    assert(self.pairs()[j] == before[j + 1]);
                }
                assert forall|k: Seq<char>|
                    m0.dom().contains(k) && !(#[trigger] self@.dom().contains(k)) implies !pred(
                    m0[k],
                ) by {
                    if k == p0[i as int].0 {
                        assert(m0[k] == p0[i as int].1);
                    } else {
                        assert(!mb.dom().contains(k));
                    }
                }
            }
        }
        proof {
            use_type_invariant(&*self);
            let p1 = self.pairs();
            lemma_pairs_map(p1);
            let want = kept_by(m0, pred);
            assert forall|k: Seq<char>| self@.dom().contains(k) <==> #[trigger] want.dom().contains(
                k,
            ) by {
                if self@.dom().contains(k) {
                    let j = choose|j: int| 0 <= j < p1.len() && p1[j].0 == k;
                    assert(pred(p1[j].1));
                }
            }
            assert(self@ =~= want);
        }
    }

    /// The entries in the order of first insertion.
    pub fn entries(&self) -> (r: &Vec<(String, V)>)
        ensures
            pairs_of(r@) == self.pairs(),
            keys_distinct(self.pairs()),
    {
        proof {
            use_type_invariant(self);
        }
        &self.entries
    }
}

/// A map of pairs holds what the last pair of a key says.
pub proof fn law_map_of_pairs<K, V>(p: Seq<(K, V)>, k: K, v: V, other: K)
    ensures
        ({
            let m = pairs_map(p.push((k, v)));
            &&& m.dom().contains(k) && m[k] == v
            &&& other != k ==> (m.dom().contains(other) <==> pairs_map(p).dom().contains(other))
            &&& other != k && m.dom().contains(other) ==> m[other] == pairs_map(p)[other]
            &&& !pairs_map(Seq::<(K, V)>::empty()).dom().contains(k)
        }),
{
    assert(p.push((k, v)).drop_last() =~= p);
}

/// What is kept of a map: the values of which the condition holds, under their keys.
pub proof fn law_kept_of_a_map<K, V>(m: Map<K, V>, pred: spec_fn(V) -> bool, k: K)
    ensures
        kept_by(m, pred).dom().contains(k) <==> m.dom().contains(k) && pred(m[k]),
        kept_by(m, pred).dom().contains(k) ==> kept_by(m, pred)[k] == m[k],
{
}

} // verus!
