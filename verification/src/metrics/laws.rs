//! What holds of the counters and archives as a whole.
use crate::metrics::archive::{
    consolidated, lemma_total_bounds, total, Ring, Series, Slot,
};
use crate::metrics::counters::{bucket_of, ClassCounters, HandlerKind};
use crate::metrics::history::law_absorbed_is_most_recent;
use crate::metrics::paths::tally;
use crate::metrics::period::FINE_SLOTS;
use crate::metrics::tick::{ticked, TickSample};
use crate::metrics::{class_recorded, is_blank, recorded, Metrics};
use vstd::prelude::*;

verus! {

/// The requests in all latency buckets together.
pub open spec fn histogram_total(m: Metrics) -> int {
    m.latency@[0] + m.latency@[1] + m.latency@[2] + m.latency@[3] + m.latency@[4] + m.latency@[5]
}

/// The latency histogram counts every completed request once: its buckets add
/// up to the request total, modulo 2^64.
pub proof fn law_histogram_counts_every_request(
    a: Metrics,
    b: Metrics,
    status: u16,
    latency_ms: u128,
)
    requires
        recorded(a, b, status, latency_ms),
        histogram_total(a) % 0x1_0000_0000_0000_0000 == a.requests_total,
    ensures
        histogram_total(b) % 0x1_0000_0000_0000_0000 == b.requests_total,
{
    let k = bucket_of(latency_ms as int);
    assert(a.latency@.len() == 6);
    assert(forall|i: int| 0 <= i < 6 && i != k ==> b.latency@[i] == a.latency@[i]);
    let old = a.latency@[k];
    if old == u64::MAX {
        assert(b.latency@[k] == 0);
        assert(histogram_total(b) == histogram_total(a) - u64::MAX);
    } else {
        assert(b.latency@[k] == old + 1);
        assert(histogram_total(b) == histogram_total(a) + 1);
    }
}

/// The status classes of a tally add up to its total, modulo 2^64, as long as
/// every response has a status from 200 to 599.
pub proof fn law_classes_add_up(c: ClassCounters, status: u16)
    requires
        200 <= status < 600,
        (c.s2xx + c.s3xx + c.s4xx + c.s5xx) % 0x1_0000_0000_0000_0000 == c.total,
    ensures
        ({
            let d = c.with(status);
            (d.s2xx + d.s3xx + d.s4xx + d.s5xx) % 0x1_0000_0000_0000_0000 == d.total
        }),
{
}

/// Counting a request in the breakdowns moves one handler kind and one vhost
/// and leaves every other of both as it was.
pub proof fn law_breakdowns_are_independent(
    a: Metrics,
    b: Metrics,
    kind: HandlerKind,
    vhost: Seq<char>,
    status: u16,
    other_kind: HandlerKind,
    other_vhost: Seq<char>,
)
    requires
        class_recorded(a, b, kind, vhost, status),
        other_kind != kind,
        other_vhost != vhost,
    ensures
        b.per_kind@[other_kind.place()] == a.per_kind@[other_kind.place()],
        b.per_vhost@.dom().contains(other_vhost) == a.per_vhost@.dom().contains(other_vhost),
        a.per_vhost@.dom().contains(other_vhost) ==> b.per_vhost@[other_vhost]
            == a.per_vhost@[other_vhost],
{
}

/// A request that starts and ends leaves the in-flight gauge as it was.
pub proof fn law_active_returns(v: i64)
    ensures
        v.wrapping_add(1).wrapping_sub(1) == v,
        v.wrapping_sub(1).wrapping_add(1) == v,
{
}

/// Before the first tick every averaged rate is zero.
pub proof fn law_rates_zero_before_first_tick(ring: Ring, n: int, f: Series)
    requires
        ring.wf(),
        is_blank(ring),
        0 <= n <= ring.cap(),
    ensures
        total(ring.recent(n), f) == 0,
{
    lemma_total_of_zeros(ring.recent(n), f);
}

proof fn lemma_total_of_zeros(s: Seq<Slot>, f: Series)
    requires
        forall|i: int| 0 <= i < s.len() ==> s[i] == Slot::zero(),
    ensures
        total(s, f) == 0,
    decreases s.len(),
{
    if s.len() > 0 {
        lemma_total_of_zeros(s.drop_last(), f);
    }
}

/// The most recent fine slot after a tick is the one that the tick wrote, and
/// the next tick counts from there.
pub proof fn law_tick_shows_in_last_slot(a: Metrics, b: Metrics, s: TickSample)
    requires
        a.wf(),
        ticked(a, b, s),
    ensures
        b.fine.ring.recent(1) == seq![a.tick_slot(s)],
        b.fine.last == a.tick_baseline(s),
{
    assert(b.fine.ring.recent(0int + 1) == a.fine.ring.recent(0).push(a.tick_slot(s)));
    assert(a.fine.ring.recent(0) =~= Seq::empty());
    assert(Seq::<Slot>::empty().push(a.tick_slot(s)) =~= seq![a.tick_slot(s)]);
}

/// A tick that closes a minute makes the most recent minute slot stand for the
/// twelve most recent fine slots; likewise an hour for sixty minutes and a day
/// for twenty-four hours.
pub proof fn law_closed_slots_stand_for_their_run(a: Metrics, b: Metrics, s: TickSample)
    requires
        a.wf(),
        ticked(a, b, s),
    ensures
        b.fine.ring.written as int % 12 == 0 ==> b.minute.ring.recent(1) == seq![
            consolidated(b.fine.ring.recent(12)),
        ],
        b.fine.ring.written as int % 12 == 0 && b.minute.ring.written as int % 60 == 0
            ==> b.hourly.ring.recent(1) == seq![consolidated(b.minute.ring.recent(60))],
        b.fine.ring.written as int % 12 == 0 && b.minute.ring.written as int % 60 == 0
            && b.hourly.ring.written as int % 24 == 0 ==> b.daily.ring.recent(1) == seq![
            consolidated(b.hourly.ring.recent(24)),
        ],
{
    if b.fine.ring.written as int % 12 == 0 {
        law_absorbed_is_most_recent(
            a.minute,
            b.minute,
            b.fine.ring.recent(12),
            tally(b.paths.recent(12)),
            0,
        );
        assert(a.minute.ring.recent(0) =~= Seq::empty());
        assert(b.minute.ring.recent(1) =~= seq![consolidated(b.fine.ring.recent(12))]);
        if b.minute.ring.written as int % 60 == 0 {
            law_absorbed_is_most_recent(
                a.hourly,
                b.hourly,
                b.minute.ring.recent(60),
                tally(b.minute.recent_paths(60)),
                0,
            );
            assert(b.hourly.ring.recent(1) =~= seq![consolidated(b.minute.ring.recent(60))]);
            if b.hourly.ring.written as int % 24 == 0 {
                law_absorbed_is_most_recent(
                    a.daily,
                    b.daily,
                    b.hourly.ring.recent(24),
                    tally(b.hourly.recent_paths(24)),
                    0,
                );
                assert(b.daily.ring.recent(1) =~= seq![consolidated(b.hourly.ring.recent(24))]);
            }
        }
    }
}

/// The runs of slots one after the other.
pub open spec fn joined(runs: Seq<Seq<Slot>>) -> Seq<Slot>
    decreases runs.len(),
{
    if runs.len() == 0 {
        Seq::empty()
    } else {
        joined(runs.drop_last()) + runs.last()
    }
}

/// The slot of each run.
pub open spec fn each_consolidated(runs: Seq<Seq<Slot>>) -> Seq<Slot> {
    Seq::new(runs.len(), |i: int| consolidated(runs[i]))
}

proof fn lemma_total_joins(a: Seq<Slot>, b: Seq<Slot>, f: Series)
    ensures
        total(a + b, f) == total(a, f) + total(b, f),
    decreases b.len(),
{
    if b.len() == 0 {
        assert(a + b =~= a);
    } else {
        lemma_total_joins(a, b.drop_last(), f);
        assert((a + b).drop_last() =~= a + b.drop_last());
    }
}

proof fn lemma_same_remainder(x: int, y: int, z: int)
    requires
        0 <= x,
        0 <= y,
        0 <= z,
        x % 0x1_0000_0000 == y % 0x1_0000_0000,
    ensures
        (x + z % 0x1_0000_0000) % 0x1_0000_0000 == (y + z) % 0x1_0000_0000,
{
}

proof fn lemma_step_totals(runs: Seq<Seq<Slot>>)
    ensures
        total(each_consolidated(runs), Series::Req) % 0x1_0000_0000 == total(
            joined(runs),
            Series::Req,
        ) % 0x1_0000_0000,
    decreases runs.len(),
{
    let f = Series::Req;
    if runs.len() > 0 {
        let front = runs.drop_last();
        lemma_step_totals(front);
        assert(each_consolidated(runs).drop_last() =~= each_consolidated(front));
        lemma_total_joins(joined(front), runs.last(), f);
        lemma_total_bounds(joined(front), f);
        lemma_total_bounds(each_consolidated(front), f);
        lemma_total_bounds(runs.last(), f);
        let z = total(runs.last(), f);
        assert(each_consolidated(runs).last() == consolidated(runs.last()));
        assert(each_consolidated(runs).last().of(f) == z % 0x1_0000_0000);
        lemma_same_remainder(
            total(each_consolidated(front), f),
            total(joined(front), f),
            z,
        );
    }
}

/// Requests survive consolidation in steps: consolidating the slots that stand
/// for several runs counts the requests of all the runs, modulo 2^32.
pub proof fn law_requests_survive_consolidation(runs: Seq<Seq<Slot>>)
    ensures
        consolidated(each_consolidated(runs)).req == total(joined(runs), Series::Req)
            % 0x1_0000_0000,
{
    lemma_total_bounds(joined(runs), Series::Req);
    lemma_total_bounds(each_consolidated(runs), Series::Req);
    lemma_step_totals(runs);
}

/// A row of ticks, none of them more than the fine archive holds: the counters
/// before and after each. Between two ticks the archive rests and requests only come
/// in, fewer than 2^32.
pub open spec fn ticks_in_row(a: Seq<Metrics>, b: Seq<Metrics>, s: Seq<TickSample>) -> bool {
    &&& 0 < a.len() <= FINE_SLOTS
    &&& b.len() == a.len()
    &&& s.len() == a.len()
    &&& forall|i: int| 0 <= i < a.len() ==> ticked(#[trigger] a[i], b[i], s[i])
    &&& forall|i: int| 0 <= i < a.len() - 1 ==> (#[trigger] b[i]).fine == a[i + 1].fine
    &&& forall|i: int|
        0 <= i < a.len() ==> (#[trigger] a[i]).fine.last.total <= a[i].requests_total < a[i].fine.last.total
            + 0x1_0000_0000
}

/// After a row of ticks the requests in the slots that they wrote add up to the total
/// that the last of them read, less the total that the tick before the first had
/// read. From the start on that is the total itself.
pub proof fn law_fine_slots_add_up(a: Seq<Metrics>, b: Seq<Metrics>, s: Seq<TickSample>)
    requires
        ticks_in_row(a, b, s),
    ensures
        total(b.last().fine.ring.recent(a.len() as int), Series::Req) == a.last().requests_total
            - a[0].fine.last.total,
        b.last().fine.last.total == a.last().requests_total,
        a[0].is_fresh() ==> total(b.last().fine.ring.recent(a.len() as int), Series::Req)
            == a.last().requests_total,
    decreases a.len(),
{
    let n = a.len() - 1;
    let slot = a[n].tick_slot(s[n]);
    assert(ticked(a[n], b[n], s[n]));
    let before = a[n].fine.ring.recent(n);
    assert(b[n].fine.ring.recent(n + 1) == before.push(slot));
    assert(before.push(slot).drop_last() =~= before);
    assert(total(before.push(slot), Series::Req) == total(before, Series::Req) + slot.req);
    assert(slot.req == a[n].requests_total - a[n].fine.last.total);
    if n == 0 {
        assert(before =~= Seq::empty());
        assert(total(before, Series::Req) == 0);
    } else {
        let a0 = a.drop_last();
        let b0 = b.drop_last();
        let s0 = s.drop_last();
        assert forall|i: int| 0 <= i < a0.len() implies ticked(#[trigger] a0[i], b0[i], s0[i]) by {
            assert(a[i] == a0[i]);
        }
        assert forall|i: int| 0 <= i < a0.len() - 1 implies (#[trigger] b0[i]).fine == a0[i
            + 1].fine by {
            assert(b[i] == b0[i]);
        }
        assert forall|i: int| 0 <= i < a0.len() implies (#[trigger] a0[i]).fine.last.total
            <= a0[i].requests_total < a0[i].fine.last.total + 0x1_0000_0000 by {
            assert(a[i] == a0[i]);
        }
        law_fine_slots_add_up(a0, b0, s0);
        assert(b0.last() == b[n - 1]);
        assert(b[n - 1].fine == a[n].fine);
    }
}

} // verus!
