//! Request paths and their hit counts: aggregation and ranking.
use crate::metrics::archive::{lemma_ring_write, ring_at, ring_next, ring_recent, ring_step};
use crate::metrics::period::FINE_SLOTS;
use crate::strmap::{keys_distinct, pairs_map, pairs_of, StrMap};
use vstd::prelude::*;
use vstd::utf8::{decode_utf8, encode_utf8, encode_utf8_decode_utf8, is_char_boundary};

verus! {

/// A path and its hits, by value.
pub type PathHits = (Seq<char>, u64);

/// The hits of a path in a table of counts.
pub open spec fn hits(m: Map<Seq<char>, u64>, k: Seq<char>) -> u64 {
    if m.dom().contains(k) {
        m[k]
    } else {
        0
    }
}

/// `v` more hits of `k`, modulo 2^64.
pub open spec fn bumped(m: Map<Seq<char>, u64>, k: Seq<char>, v: u64) -> Map<Seq<char>, u64> {
    m.insert(k, hits(m, k).wrapping_add(v))
}

/// The table with the hits of a list of pairs added to it.
pub open spec fn with_pairs(m: Map<Seq<char>, u64>, p: Seq<PathHits>) -> Map<Seq<char>, u64>
    decreases p.len(),
{
    if p.len() == 0 {
        m
    } else {
        bumped(with_pairs(m, p.drop_last()), p.last().0, p.last().1)
    }
}

/// The hits of several lists of pairs, added up.
pub open spec fn tally(lists: Seq<Seq<PathHits>>) -> Map<Seq<char>, u64>
    decreases lists.len(),
{
    if lists.len() == 0 {
        Map::empty()
    } else {
        with_pairs(tally(lists.drop_last()), lists.last())
    }
}

/// Adds `v` hits of `k` to a table.
pub fn bump(m: &mut StrMap<u64>, k: &str, v: u64)
    ensures
        final(m)@ == bumped(old(m)@, k@, v),
{
    let c: u64 = match m.get(k) {
        Some(c) => *c,
        None => 0,
    };
    m.insert(k.to_owned(), c.wrapping_add(v));
}

/// Adds the hits of a list of pairs to a table.
pub fn add_pairs(m: &mut StrMap<u64>, p: &Vec<(String, u64)>)
    ensures
        final(m)@ == with_pairs(old(m)@, pairs_of(p@)),
{
    let n: usize = p.len();
    let mut i: usize = 0;
    assert(pairs_of(p@).take(0) =~= Seq::empty());
    while i < n
        invariant
            n == p@.len(),
            i <= n,
            m@ == with_pairs(old(m)@, pairs_of(p@).take(i as int)),
        decreases n - i,
    {
        bump(m, p[i].0.as_str(), p[i].1);
        proof {
            let t = pairs_of(p@).take(i + 1);
            assert(t.drop_last() =~= pairs_of(p@).take(i as int));
            assert(t.last() == (p@[i as int].0@, p@[i as int].1));
        }
        i = i + 1;
    }
    assert(pairs_of(p@).take(n as int) =~= pairs_of(p@));
}

/// Whether entry `a` of a list ranks ahead of entry `b`: by more hits, and
/// between equals by the earlier place.
pub open spec fn ahead(v: Seq<PathHits>, a: int, b: int) -> bool {
    v[a].1 > v[b].1 || (v[a].1 == v[b].1 && a < b)
}

/// `pick` lists places of `v` in rank order, and every place that it leaves
/// out ranks behind all of them.
pub open spec fn ranks_first(v: Seq<PathHits>, pick: Seq<int>) -> bool {
    &&& forall|i: int| 0 <= i < pick.len() ==> 0 <= #[trigger] pick[i] < v.len()
    &&& forall|i: int, j: int| 0 <= i < j < pick.len() ==> ahead(v, #[trigger] pick[i], #[trigger] pick[j])
    &&& forall|i: int, k: int|
        #![trigger pick[i], v[k]]
        0 <= i < pick.len() && 0 <= k < v.len() && !pick.contains(k) ==> ahead(v, pick[i], k)
}

/// `r` holds the `limit` first-ranking entries of `v`, or all where there are
/// fewer, in rank order.
pub open spec fn is_top(v: Seq<PathHits>, limit: int, r: Seq<PathHits>) -> bool {
    exists|pick: Seq<int>| #[trigger]
        ranks_first(v, pick) && pick.len() == (if limit < v.len() {
            limit
        } else {
            v.len() as int
        }) && r == Seq::new(pick.len(), |i: int| v[pick[i]])
}

/// `r` holds the `limit` paths with the most hits in the table `m`, most hits
/// first. Which of two paths with equal hits comes first is left open.
pub open spec fn is_top_of(m: Map<Seq<char>, u64>, limit: int, r: Seq<PathHits>) -> bool {
    exists|v: Seq<PathHits>|
        keys_distinct(v) && pairs_map(v) == m && #[trigger] is_top(v, limit, r)
}

/// The first-ranking entry that is not yet picked.
fn best_left(v: &Vec<(String, u64)>, picked: &Vec<bool>) -> (r: usize)
    requires
        picked@.len() == v@.len(),
        exists|k: int| 0 <= k < v@.len() && !#[trigger] picked@[k],
    ensures
        r < v@.len(),
        !picked@[r as int],
        forall|k: int|
            0 <= k < v@.len() && k != r && !#[trigger] picked@[k] ==> ahead(
                pairs_of(v@),
                r as int,
                k,
            ),
{
    let n: usize = v.len();
    let mut best: Option<usize> = None;
    let mut i: usize = 0;
    while i < n
        invariant
            n == v@.len() == picked@.len(),
            i <= n,
            match best {
                Some(b) => b < i && !picked@[b as int] && forall|k: int|
                    0 <= k < i && k != b && !#[trigger] picked@[k] ==> ahead(
                        pairs_of(v@),
                        b as int,
                        k,
                    ),
                None => forall|k: int| 0 <= k < i ==> #[trigger] picked@[k],
            },
        decreases n - i,
    {
        if !picked[i] {
            match best {
                Some(b) => {
                    if v[i].1 > v[b].1 {
                        best = Some(i);
                    }
                },
                None => {
                    best = Some(i);
                },
            }
        }
        i = i + 1;
    }
    match best {
        Some(b) => b,
        None => {
            assert(false);
            0
        },
    }
}

/// The `limit` entries with the most hits, most hits first; between equals the
/// earlier entry comes first.
pub fn top_n(v: &Vec<(String, u64)>, limit: usize) -> (r: Vec<(String, u64)>)
    ensures
        is_top(pairs_of(v@), limit as int, pairs_of(r@)),
{
    let n: usize = v.len();
    let m: usize = if limit < n {
        limit
    } else {
        n
    };
    let ghost vp = pairs_of(v@);
    let mut picked: Vec<bool> = Vec::new();
    let mut j: usize = 0;
    while j < n
        invariant
            j <= n,
            picked@.len() == j,
            forall|k: int| 0 <= k < j ==> !#[trigger] picked@[k],
        decreases n - j,
    {
        picked.push(false);
        j = j + 1;
    }
    let mut out: Vec<(String, u64)> = Vec::new();
    let ghost mut pick: Seq<int> = Seq::empty();
    let mut i: usize = 0;
    while i < m
        invariant
            n == v@.len() == picked@.len(),
            m <= n,
            i <= m,
            vp == pairs_of(v@),
            pick.len() == i,
            ranks_first(vp, pick),
            forall|k: int| 0 <= k < n ==> (#[trigger] picked@[k] <==> pick.contains(k)),
            out@.len() == i,
            pairs_of(out@) == Seq::new(pick.len(), |i: int| vp[pick[i]]),
        decreases m - i,
    {
        proof {
            lemma_one_left(picked@, pick);
        }
        let b: usize = best_left(v, &picked);
        let ghost picked0 = picked@;
        let ghost out0 = out@;
        out.push((v[b].0.clone(), v[b].1));
        picked[b] = true;
        proof {
            let p2 = pick.push(b as int);
            assert(forall|k: int| p2.contains(k) <==> pick.contains(k) || k == b) by {
                assert forall|k: int| p2.contains(k) <==> pick.contains(k) || k == b by {
                    if p2.contains(k) {
                        let x = choose|x: int| 0 <= x < p2.len() && p2[x] == k;
                        if x < pick.len() {
                            assert(pick[x] == k);
                        }
                    }
                    if pick.contains(k) {
                        let x = choose|x: int| 0 <= x < pick.len() && pick[x] == k;
                        assert(p2[x] == k);
                    }
                    if k == b {
                        assert(p2[pick.len() as int] == k);
                    }
                }
            }
            assert(!picked0[b as int]);
            assert forall|x: int, y: int| 0 <= x < y < p2.len() implies ahead(
                vp,
                #[trigger] p2[x],
                #[trigger] p2[y],
            ) by {
                assert(p2[x] == pick[x]);
                if y < pick.len() {
                    assert(p2[y] == pick[y]);
                } else {
                    assert(vp[b as int] == vp[p2[y]]);
                }
            }
            assert forall|x: int, k: int|
                #![trigger p2[x], vp[k]]
                0 <= x < p2.len() && 0 <= k < vp.len() && !p2.contains(k) implies ahead(
                vp,
                p2[x],
                k,
            ) by {
                assert(!picked0[k]);
                if x < pick.len() {
                    assert(p2[x] == pick[x]);
                }
            }
            assert(ranks_first(vp, p2));
            let want = Seq::new(p2.len(), |i: int| vp[p2[i]]);
            assert forall|x: int| 0 <= x < want.len() implies #[trigger] pairs_of(out@)[x]
                == want[x] by {
                if x < pick.len() {
                    assert(pairs_of(out@)[x] == pairs_of(out0)[x]);
                    assert(p2[x] == pick[x]);
                }
            }
            assert(pairs_of(out@) =~= want);
            pick = p2;
        }
        i = i + 1;
    }
    out
}

/// Fewer picks than places leave a place unpicked.
proof fn lemma_one_left(picked: Seq<bool>, pick: Seq<int>)
    requires
        pick.len() < picked.len(),
        forall|k: int| 0 <= k < picked.len() ==> (#[trigger] picked[k] <==> pick.contains(k)),
    ensures
        exists|k: int| 0 <= k < picked.len() && !#[trigger] picked[k],
{
    if forall|k: int| 0 <= k < picked.len() ==> #[trigger] picked[k] {
        let all = Seq::new(picked.len(), |i: int| i);
        assert(all.no_duplicates());
        all.unique_seq_to_set();
        pick.lemma_cardinality_of_set();
        assert(all.to_set().subset_of(pick.to_set())) by {
            assert forall|k: int| all.to_set().contains(k) implies pick.to_set().contains(k) by {
                assert(picked[k]);
                assert(pick.contains(k));
            }
        }
        vstd::set_lib::lemma_len_subset(all.to_set(), pick.to_set());
    }
}

/// Distinct paths that the live tables follow.
pub const MAX_TRACKED_PATHS: usize = 200;

/// Paths kept in each slot of a coarse archive.
pub const COARSE_TOP_PATHS: usize = 20;

/// Paths that a top-path query returns.
pub const TOP_PATHS_LIMIT: usize = 20;

/// Bytes of a path that are kept.
pub const MAX_PATH_BYTES: usize = 128;

/// A path cut to its first 128 bytes.
pub open spec fn clipped(path: Seq<char>) -> Seq<char> {
    if encode_utf8(path).len() <= 128 {
        path
    } else {
        decode_utf8(encode_utf8(path).subrange(0, 128))
    }
}

/// Whether the cut of [`clipped`] falls between two characters.
pub open spec fn clippable(path: Seq<char>) -> bool {
    encode_utf8(path).len() > 128 ==> is_char_boundary(encode_utf8(path), 128)
}

/// One more hit of `k`, unless the table is full and does not follow `k`.
pub open spec fn with_hit(m: Map<Seq<char>, u64>, k: Seq<char>) -> Map<Seq<char>, u64> {
    if m.dom().len() < MAX_TRACKED_PATHS || m.dom().contains(k) {
        bumped(m, k, 1)
    } else {
        m
    }
}

fn add_hit(m: &mut StrMap<u64>, k: &str)
    ensures
        final(m)@ == with_hit(old(m)@, k@),
        old(m)@.dom().len() <= MAX_TRACKED_PATHS ==> final(m)@.dom().len() <= MAX_TRACKED_PATHS,
{
    if m.len() < MAX_TRACKED_PATHS || m.contains_key(k) {
        bump(m, k, 1);
    }
}

/// Path hits at the resolution of the fine archive.
pub struct PathData {
    /// Hits per completed slot, in step with the fine archive.
    pub slots: Vec<StrMap<u64>>,
    /// Hits of the slot in progress.
    pub current: StrMap<u64>,
    /// Hits since the start.
    pub total: StrMap<u64>,
    pub head: usize,
}

/// The pairs of each table of a list.
pub open spec fn pairs_each(slots: Seq<StrMap<u64>>) -> Seq<Seq<PathHits>> {
    Seq::new(slots.len(), |i: int| slots[i].pairs())
}

impl PathData {
    pub open spec fn wf(&self) -> bool {
        &&& self.slots@.len() == FINE_SLOTS
        &&& self.head < FINE_SLOTS
    }

    /// The hits of the `n` most recently completed slots, oldest first.
    pub open spec fn recent(&self, n: int) -> Seq<Seq<PathHits>> {
        ring_recent(pairs_each(self.slots@), self.head as int, n)
    }

    /// The live tables follow no more than the allowed number of paths.
    pub open spec fn bounded(&self) -> bool {
        &&& self.current@.dom().len() <= MAX_TRACKED_PATHS
        &&& self.total@.dom().len() <= MAX_TRACKED_PATHS
    }

    pub fn new() -> (r: Self)
        ensures
            r.wf(),
            r.bounded(),
            r.head == 0,
            r.current@ == Map::<Seq<char>, u64>::empty(),
            r.total@ == Map::<Seq<char>, u64>::empty(),
            forall|i: int| 0 <= i < FINE_SLOTS ==> (#[trigger] r.slots@[i]).pairs() == Seq::<
                PathHits,
            >::empty(),
    {
        let mut slots: Vec<StrMap<u64>> = Vec::new();
        let mut i: usize = 0;
        while i < FINE_SLOTS
            invariant
                i <= FINE_SLOTS,
                slots@.len() == i,
                forall|j: int| 0 <= j < i ==> (#[trigger] slots@[j]).pairs() == Seq::<
                    PathHits,
                >::empty(),
            decreases FINE_SLOTS - i,
        {
            slots.push(StrMap::new());
            i = i + 1;
        }
        PathData { slots, current: StrMap::new(), total: StrMap::new(), head: 0 }
    }

    /// Counts a hit of a path.
    pub fn record(&mut self, path: &str)
        requires
            clippable(path@),
        ensures
            final(self).total@ == with_hit(old(self).total@, clipped(path@)),
            final(self).current@ == with_hit(old(self).current@, clipped(path@)),
            final(self).slots == old(self).slots,
            final(self).head == old(self).head,
            old(self).bounded() ==> final(self).bounded(),
    {
        let p = if path.as_bytes().len() > MAX_PATH_BYTES {
            let (front, _) = path.split_at(MAX_PATH_BYTES);
            proof {
                encode_utf8_decode_utf8(front@);
            }
            front
        } else {
            path
        };
        add_hit(&mut self.total, p);
        add_hit(&mut self.current, p);
    }

    /// Completes the slot in progress.
    pub fn flush(&mut self)
        requires
            old(self).wf(),
        ensures
            final(self).wf(),
            pairs_each(final(self).slots@) == pairs_each(old(self).slots@).update(
                old(self).head as int,
                old(self).current.pairs(),
            ),
            final(self).head == ring_next(old(self).head as int, FINE_SLOTS as int),
            final(self).current@ == Map::<Seq<char>, u64>::empty(),
            final(self).total == old(self).total,
            old(self).bounded() ==> final(self).bounded(),
            forall|n: int|
                0 <= n < FINE_SLOTS ==> #[trigger] final(self).recent(n + 1) == old(self).recent(
                    n,
                ).push(old(self).current.pairs()),
    {
        let head: usize = self.head;
        let mut done: StrMap<u64> = StrMap::new();
        core::mem::swap(&mut done, &mut self.current);
        self.slots[head] = done;
        self.head = ring_step(head, FINE_SLOTS);
        proof {
            let s0 = pairs_each(old(self).slots@);
            let s1 = pairs_each(self.slots@);
            assert(s1 =~= s0.update(head as int, old(self).current.pairs()));
            assert forall|n: int| 0 <= n < FINE_SLOTS implies #[trigger] self.recent(n + 1) == old(
                self,
            ).recent(n).push(old(self).current.pairs()) by {
                lemma_ring_write(s0, head as int, old(self).current.pairs(), n);
            }
        }
    }

    /// The hits of the `n` most recently completed slots, added up.
    pub fn tally_recent(&self, n: usize) -> (r: StrMap<u64>)
        requires
            self.wf(),
            n <= FINE_SLOTS,
        ensures
            r@ == tally(self.recent(n as int)),
    {
        let mut m: StrMap<u64> = StrMap::new();
        let mut i: usize = 0;
        let ghost lists = self.recent(n as int);
        assert(lists.take(0) =~= Seq::empty());
        while i < n
            invariant
                self.wf(),
                n <= FINE_SLOTS,
                i <= n,
                lists == self.recent(n as int),
                m@ == tally(lists.take(i as int)),
            decreases n - i,
        {
            let at: usize = ring_at(self.head, FINE_SLOTS, n, i);
            add_pairs(&mut m, self.slots[at].entries());
            assert(lists.take(i + 1).drop_last() =~= lists.take(i as int));
            assert(lists.take(i + 1).last() == lists[i as int]);
            i = i + 1;
        }
        assert(lists.take(n as int) =~= lists);
        m
    }
}

/// The `limit` paths with the most hits in a table.
pub fn top_of(m: &StrMap<u64>, limit: usize) -> (r: Vec<(String, u64)>)
    ensures
        is_top_of(m@, limit as int, pairs_of(r@)),
{
    let v = m.entries();
    let r = top_n(v, limit);
    assert(is_top(m.pairs(), limit as int, pairs_of(r@)));
    r
}

} // verus!
