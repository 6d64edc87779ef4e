//! The fine history and the coarse archives that it is consolidated into.
use crate::metrics::archive::{
    consolidate, consolidated, lemma_ring_write, ring_at, ring_next, ring_recent, total, Ring,
    Series, Slot, MAX_SLOTS,
};
use crate::metrics::paths::{
    add_pairs, is_top_of, tally, top_of, PathHits, COARSE_TOP_PATHS,
};
use crate::metrics::period::FINE_SLOTS;
use crate::strmap::{pairs_of, StrMap};
use vstd::prelude::*;

verus! {

/// Counter values at the previous tick, from which the next slot's deltas are
/// taken.
#[derive(Clone, Copy, Debug, PartialEq, Eq)]
pub struct Baseline {
    pub total: u64,
    pub auth: u64,
    pub jwt: u64,
    pub jwt_expiry: u64,
    pub jwt_issued: u64,
    pub s4xx: u64,
    pub s5xx: u64,
    /// CPU ticks; 0 means that there is no baseline yet.
    pub cpu_ticks: u64,
}

/// Fine archive: 5-second resolution, 60 minutes of history.
pub struct FineHistory {
    pub ring: Ring,
    pub last: Baseline,
}

impl FineHistory {
    pub open spec fn wf(&self) -> bool {
        &&& self.ring.wf()
        &&& self.ring.cap() == FINE_SLOTS
    }

    /// An empty history with no baseline.
    pub fn new() -> (r: Self)
        ensures
            r.wf(),
            r.ring.head == 0,
            r.ring.written == 0,
            forall|i: int| 0 <= i < FINE_SLOTS ==> r.ring.slots@[i] == Slot::zero(),
            r.last == (Baseline {
                total: 0,
                auth: 0,
                jwt: 0,
                jwt_expiry: 0,
                jwt_issued: 0,
                s4xx: 0,
                s5xx: 0,
                cpu_ticks: 0,
            }),
    {
        FineHistory {
            ring: Ring::new(FINE_SLOTS),
            last: Baseline {
                total: 0,
                auth: 0,
                jwt: 0,
                jwt_expiry: 0,
                jwt_issued: 0,
                s4xx: 0,
                s5xx: 0,
                cpu_ticks: 0,
            },
        }
    }

    /// The requests of the `n` most recently completed slots, or of all where
    /// there are fewer.
    pub fn window_req(&self, n: usize) -> (r: u64)
        requires
            self.wf(),
        ensures
            r == total(
                self.ring.recent(
                    if n < FINE_SLOTS {
                        n as int
                    } else {
                        FINE_SLOTS as int
                    },
                ),
                Series::Req,
            ),
    {
        self.ring.window(Series::Req, n)
    }
}

/// The pairs of each list of entries.
pub open spec fn lists_of(paths: Seq<Vec<(String, u64)>>) -> Seq<Seq<PathHits>> {
    Seq::new(paths.len(), |i: int| pairs_of(paths[i]@))
}

/// Coarse archive: minute, hourly or daily resolution.
pub struct CoarseArchive {
    pub ring: Ring,
    /// The paths with the most hits of each slot, in step with the ring.
    pub paths: Vec<Vec<(String, u64)>>,
}

impl CoarseArchive {
    pub open spec fn wf(&self) -> bool {
        &&& self.ring.wf()
        &&& self.paths@.len() == self.ring.cap()
    }

    pub open spec fn cap(&self) -> int {
        self.ring.cap()
    }

    /// The paths of the `n` most recent slots, oldest first.
    pub open spec fn recent_paths(&self, n: int) -> Seq<Seq<PathHits>> {
        ring_recent(lists_of(self.paths@), self.ring.head as int, n)
    }

    /// An archive of `cap` empty slots.
    pub fn new(cap: usize) -> (r: Self)
        requires
            0 < cap <= MAX_SLOTS,
        ensures
            r.wf(),
            r.cap() == cap,
            r.ring.head == 0,
            r.ring.written == 0,
            forall|i: int| 0 <= i < cap ==> r.ring.slots@[i] == Slot::zero(),
            forall|i: int| 0 <= i < cap ==> (#[trigger] r.paths@[i])@.len() == 0,
    {
        let mut paths: Vec<Vec<(String, u64)>> = Vec::new();
        let mut i: usize = 0;
        while i < cap
            invariant
                i <= cap,
                paths@.len() == i,
                forall|j: int| 0 <= j < i ==> (#[trigger] paths@[j])@.len() == 0,
            decreases cap - i,
        {
            paths.push(Vec::new());
            i = i + 1;
        }
        CoarseArchive { ring: Ring::new(cap), paths }
    }

    /// The hits of the `n` most recent slots, added up.
    pub fn tally_recent(&self, n: usize) -> (r: StrMap<u64>)
        requires
            self.wf(),
            n <= self.cap(),
        ensures
            r@ == tally(self.recent_paths(n as int)),
    {
        let cap: usize = self.paths.len();
        let mut m: StrMap<u64> = StrMap::new();
        let mut i: usize = 0;
        let ghost lists = self.recent_paths(n as int);
        assert(lists.take(0) =~= Seq::empty());
        while i < n
            invariant
                self.wf(),
                cap == self.cap(),
                n <= cap,
                i <= n,
                lists == self.recent_paths(n as int),
                m@ == tally(lists.take(i as int)),
            decreases n - i,
        {
            let at: usize = ring_at(self.ring.head, cap, n, i);
            add_pairs(&mut m, &self.paths[at]);
            assert(lists.take(i + 1).drop_last() =~= lists.take(i as int));
            assert(lists.take(i + 1).last() == lists[i as int]);
            i = i + 1;
        }
        assert(lists.take(n as int) =~= lists);
        m
    }

    /// Writes one slot that stands for a run of finer slots.
    pub fn absorb(&mut self, run: &Vec<Slot>, hits: &StrMap<u64>) -> (r: u64)
        requires
            old(self).wf(),
            0 < run@.len() <= MAX_SLOTS,
        ensures
            absorbed(*old(self), *final(self), run@, hits@),
            r == final(self).ring.written,
    {
        let head: usize = self.ring.head;
        let slot = consolidate(run);
        let top = top_of(hits, COARSE_TOP_PATHS);
        self.ring.push(slot);
        self.paths[head] = top;
        assert(lists_of(self.paths@) =~= lists_of(old(self).paths@).update(
            head as int,
            pairs_of(self.paths@[head as int]@),
        ));
        self.ring.written
    }
}

/// `b` is the archive `a` after a slot was written that consolidates `run` and
/// lists the paths with the most hits in the table `hits`.
pub open spec fn absorbed(
    a: CoarseArchive,
    b: CoarseArchive,
    run: Seq<Slot>,
    hits: Map<Seq<char>, u64>,
) -> bool {
    let at = a.ring.head as int;
    &&& b.wf()
    &&& b.cap() == a.cap()
    &&& b.ring.slots@ == a.ring.slots@.update(at, consolidated(run))
    &&& b.ring.head == ring_next(at, a.cap())
    &&& b.ring.written == a.ring.written.wrapping_add(1)
    &&& lists_of(b.paths@) == lists_of(a.paths@).update(at, pairs_of(b.paths@[at]@))
    &&& is_top_of(hits, COARSE_TOP_PATHS as int, pairs_of(b.paths@[at]@))
}

/// What a consolidation writes is the most recent slot, behind the slots that
/// were there, and the paths written with it are the most recent ones.
pub proof fn law_absorbed_is_most_recent(
    a: CoarseArchive,
    b: CoarseArchive,
    run: Seq<Slot>,
    hits: Map<Seq<char>, u64>,
    n: int,
)
    requires
        a.wf(),
        absorbed(a, b, run, hits),
        0 <= n < a.cap(),
    ensures
        b.ring.recent(n + 1) == a.ring.recent(n).push(consolidated(run)),
        b.recent_paths(n + 1) == a.recent_paths(n).push(
            pairs_of(b.paths@[a.ring.head as int]@),
        ),
{
    lemma_ring_write(a.ring.slots@, a.ring.head as int, consolidated(run), n);
    lemma_ring_write(
        lists_of(a.paths@),
        a.ring.head as int,
        pairs_of(b.paths@[a.ring.head as int]@),
        n,
    );
}

} // verus!
