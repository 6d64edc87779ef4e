//! The five-second tick: closing a fine slot and consolidating coarser ones.
use crate::metrics::archive::{ring_next, Slot};
use crate::metrics::history::{absorbed, Baseline, CoarseArchive};
use crate::metrics::paths::tally;
use crate::metrics::period::{DAILY_RATIO, FINE_SLOTS, HOURLY_RATIO, MINUTE_RATIO};
use crate::metrics::Metrics;
use vstd::prelude::*;

verus! {

/// What is sampled of the process at a tick.
#[derive(Clone, Copy, Debug, PartialEq, Eq)]
pub struct TickSample {
    /// Resident memory in KiB; 0 where it is not known.
    pub mem_kb: u64,
    /// Cumulative CPU ticks; 0 where they are not known.
    pub cpu_ticks: u64,
    /// CPU use since the previous tick in hundredths of a percent.
    pub cpu_hp: u16,
}

/// How far a counter has moved on, in 32 bits.
pub open spec fn moved32(now: u64, last: u64) -> int {
    now.saturating_sub(last) as int % 0x1_0000_0000
}

/// How far a counter has moved on, in 32 bits and then no more than 16 bits
/// can hold.
pub open spec fn moved16(now: u64, last: u64) -> int {
    if moved32(now, last) < 0xffff {
        moved32(now, last)
    } else {
        0xffff
    }
}

/// A gauge as far as 16 bits can hold it.
pub open spec fn clamp16(v: int) -> int {
    if v < 0 {
        0
    } else if v < 0xffff {
        v
    } else {
        0xffff
    }
}

/// The ticks spent between two samples.
pub open spec fn ticks_spent(last: u64, now: u64) -> u64 {
    if last == 0 {
        0
    } else {
        now.saturating_sub(last)
    }
}

impl Metrics {
    /// The slot that a tick writes.
    pub open spec fn tick_slot(&self, s: TickSample) -> Slot {
        let last = self.fine.last;
        Slot {
            req: moved32(self.requests_total, last.total) as u32,
            mem: (s.mem_kb as int % 0x1_0000_0000) as u32,
            cpu: s.cpu_hp,
            auth: moved16(self.auth_failures, last.auth) as u16,
            jwt: moved16(self.jwt_failures, last.jwt) as u16,
            jwt_expiry: moved16(self.jwt_expiries, last.jwt_expiry) as u16,
            jwt_issued: moved16(self.jwt_issued, last.jwt_issued) as u16,
            err4xx: moved16(self.status_4xx, last.s4xx) as u16,
            err5xx: moved16(self.status_5xx, last.s5xx) as u16,
            active: clamp16(self.requests_active as int) as u16,
        }
    }

    /// The baseline that a tick leaves.
    pub open spec fn tick_baseline(&self, s: TickSample) -> Baseline {
        Baseline {
            total: self.requests_total,
            auth: self.auth_failures,
            jwt: self.jwt_failures,
            jwt_expiry: self.jwt_expiries,
            jwt_issued: self.jwt_issued,
            s4xx: self.status_4xx,
            s5xx: self.status_5xx,
            cpu_ticks: s.cpu_ticks,
        }
    }

    /// CPU ticks spent since the previous tick. The first sample has no
    /// baseline and counts as none.
    pub fn cpu_delta(&self, cpu_ticks: u64) -> (r: u64)
        ensures
            r == (if self.fine.last.cpu_ticks == 0 {
                0
            } else {
                cpu_ticks.saturating_sub(self.fine.last.cpu_ticks)
            }),
            r == ticks_spent(self.fine.last.cpu_ticks, cpu_ticks),
    {
        if self.fine.last.cpu_ticks == 0 {
            0
        } else {
            cpu_ticks.saturating_sub(self.fine.last.cpu_ticks)
        }
    }

    fn close_fine_slot(&mut self, s: TickSample)
        requires
            old(self).wf(),
        ensures
            final(self).wf(),
            final(self).fine.ring.slots@ == old(self).fine.ring.slots@.update(
                old(self).fine.ring.head as int,
                old(self).tick_slot(s),
            ),
            final(self).fine.ring.head == ring_next(
                old(self).fine.ring.head as int,
                FINE_SLOTS as int,
            ),
            final(self).fine.ring.written == old(self).fine.ring.written.wrapping_add(1),
            final(self).fine.last == old(self).tick_baseline(s),
            forall|n: int|
                0 <= n < FINE_SLOTS ==> #[trigger] final(self).fine.ring.recent(n + 1) == old(
                    self,
                ).fine.ring.recent(n).push(old(self).tick_slot(s)),
            *final(self) == (Metrics { fine: final(self).fine, ..*old(self) }),
    {
        let last = self.fine.last;
        let slot = Slot {
            req: step32(self.requests_total, last.total),
            mem: (s.mem_kb % 0x1_0000_0000) as u32,
            cpu: s.cpu_hp,
            auth: step16(self.auth_failures, last.auth),
            jwt: step16(self.jwt_failures, last.jwt),
            jwt_expiry: step16(self.jwt_expiries, last.jwt_expiry),
            jwt_issued: step16(self.jwt_issued, last.jwt_issued),
            err4xx: step16(self.status_4xx, last.s4xx),
            err5xx: step16(self.status_5xx, last.s5xx),
            active: gauge16(self.requests_active),
        };
        self.fine.ring.push(slot);
        self.fine.last = Baseline {
            total: self.requests_total,
            auth: self.auth_failures,
            jwt: self.jwt_failures,
            jwt_expiry: self.jwt_expiries,
            jwt_issued: self.jwt_issued,
            s4xx: self.status_4xx,
            s5xx: self.status_5xx,
            cpu_ticks: s.cpu_ticks,
        };
    }

    /// Consolidates the last minute of fine slots into one minute slot and
    /// returns how many minute slots were ever written.
    pub fn consolidate_fine_to_minute(&mut self) -> (r: u64)
        requires
            old(self).wf(),
        ensures
            final(self).wf(),
            absorbed(
                old(self).minute,
                final(self).minute,
                old(self).fine.ring.recent(MINUTE_RATIO as int),
                tally(old(self).paths.recent(MINUTE_RATIO as int)),
            ),
            *final(self) == (Metrics { minute: final(self).minute, ..*old(self) }),
            r == final(self).minute.ring.written,
    {
        let run = self.fine.ring.last_slots(MINUTE_RATIO as usize);
        let hits = self.paths.tally_recent(MINUTE_RATIO as usize);
        self.minute.absorb(&run, &hits)
    }

    /// Consolidates the last `n` slots of one archive, or all where it has
    /// fewer, into one slot of a coarser archive, and returns how many slots
    /// were ever written to that.
    pub fn consolidate_coarse(src: &CoarseArchive, dst: &mut CoarseArchive, n: usize) -> (r: u64)
        requires
            src.wf(),
            old(dst).wf(),
            n > 0,
        ensures
            ({
                let m = if n < src.cap() {
                    n as int
                } else {
                    src.cap()
                };
                absorbed(
                    *old(dst),
                    *final(dst),
                    src.ring.recent(m),
                    tally(src.recent_paths(m)),
                )
            }),
            r == final(dst).ring.written,
    {
        let cap: usize = src.paths.len();
        let m: usize = if n < cap {
            n
        } else {
            cap
        };
        let run = src.ring.last_slots(m);
        let hits = src.tally_recent(m);
        dst.absorb(&run, &hits)
    }

    /// One tick: closes the fine slot in progress; every twelfth slot closes a
    /// minute, every sixtieth minute an hour, and every twenty-fourth hour a
    /// day.
    pub fn tick(&mut self, s: TickSample)
        requires
            old(self).wf(),
        ensures
            final(self).wf(),
            ticked(*old(self), *final(self), s),
    {
        self.close_fine_slot(s);
        self.paths.flush();
        if self.fine.ring.written % MINUTE_RATIO != 0 {
            return;
        }
        let minutes: u64 = self.consolidate_fine_to_minute();
        if minutes % HOURLY_RATIO != 0 {
            return;
        }
        let hours: u64 = Self::consolidate_coarse(
            &self.minute,
            &mut self.hourly,
            HOURLY_RATIO as usize,
        );
        if hours % DAILY_RATIO != 0 {
            return;
        }
        let _days: u64 = Self::consolidate_coarse(
            &self.hourly,
            &mut self.daily,
            DAILY_RATIO as usize,
        );
    }
}

fn step32(now: u64, last: u64) -> (r: u32)
    ensures
        r == moved32(now, last),
{
    (now.saturating_sub(last) % 0x1_0000_0000) as u32
}

fn step16(now: u64, last: u64) -> (r: u16)
    ensures
        r == moved16(now, last),
{
    let d: u32 = step32(now, last);
    if d < 0xffff {
        d as u16
    } else {
        0xffff
    }
}

fn gauge16(v: i64) -> (r: u16)
    ensures
        r == clamp16(v as int),
{
    if v < 0 {
        0
    } else if v < 0xffff {
        v as u16
    } else {
        0xffff
    }
}

/// What a tick does to the archives: `a` before and `b` after.
pub open spec fn ticked(a: Metrics, b: Metrics, s: TickSample) -> bool {
    let closes_minute = b.fine.ring.written as int % 12 == 0;
    let closes_hour = closes_minute && b.minute.ring.written as int % 60 == 0;
    let closes_day = closes_hour && b.hourly.ring.written as int % 24 == 0;
    // The fine slot.
    &&& b.fine.ring.slots@ == a.fine.ring.slots@.update(a.fine.ring.head as int, a.tick_slot(s))
    &&& b.fine.ring.head == ring_next(a.fine.ring.head as int, FINE_SLOTS as int)
    &&& b.fine.ring.written == a.fine.ring.written.wrapping_add(1)
    &&& b.fine.last == a.tick_baseline(s)
    &&& forall|n: int|
        0 <= n < FINE_SLOTS ==> #[trigger] b.fine.ring.recent(n + 1) == a.fine.ring.recent(n).push(
            a.tick_slot(s),
        )
    // The paths of the fine slot.
    &&& b.paths.current@ == Map::<Seq<char>, u64>::empty()
    &&& b.paths.total == a.paths.total
    &&& b.paths.head == ring_next(a.paths.head as int, FINE_SLOTS as int)
    &&& forall|n: int|
        0 <= n < FINE_SLOTS ==> #[trigger] b.paths.recent(n + 1) == a.paths.recent(n).push(
            a.paths.current.pairs(),
        )
    // The coarser archives.
    &&& if closes_minute {
        absorbed(a.minute, b.minute, b.fine.ring.recent(12), tally(b.paths.recent(12)))
    } else {
        b.minute == a.minute
    }
    &&& if closes_hour {
        absorbed(a.hourly, b.hourly, b.minute.ring.recent(60), tally(b.minute.recent_paths(60)))
    } else {
        b.hourly == a.hourly
    }
    &&& if closes_day {
        absorbed(a.daily, b.daily, b.hourly.ring.recent(24), tally(b.hourly.recent_paths(24)))
    } else {
        b.daily == a.daily
    }
    // Nothing else.
    &&& b == (Metrics {
        fine: b.fine,
        paths: b.paths,
        minute: b.minute,
        hourly: b.hourly,
        daily: b.daily,
        ..a
    })
}

/// A row of ticks: the counters before and after each. Between two ticks the archives
/// rest.
pub open spec fn ticked_in_turn(a: Seq<Metrics>, b: Seq<Metrics>, s: Seq<TickSample>) -> bool {
    &&& 0 < a.len() <= u64::MAX
    &&& b.len() == a.len()
    &&& s.len() == a.len()
    &&& forall|i: int| 0 <= i < a.len() ==> ticked(#[trigger] a[i], b[i], s[i])
    &&& forall|i: int|
        0 <= i < a.len() - 1 ==> (#[trigger] b[i]).fine == a[i + 1].fine && b[i].minute == a[i
            + 1].minute && b[i].hourly == a[i + 1].hourly && b[i].daily == a[i + 1].daily
}

proof fn lemma_whole_parts(n: int)
    requires
        n >= 0,
    ensures
        (n + 1) / 12 == n / 12 + (if (n + 1) % 12 == 0 {
            1int
        } else {
            0
        }),
        (n + 1) / 720 == n / 720 + (if (n + 1) % 12 == 0 && ((n + 1) / 12) % 60 == 0 {
            1int
        } else {
            0
        }),
        (n + 1) / 17280 == n / 17280 + (if (n + 1) % 12 == 0 && ((n + 1) / 12) % 60 == 0 && ((n + 1)
            / 720) % 24 == 0 {
            1int
        } else {
            0
        }),
{
}

proof fn lemma_tick_counts(a: Metrics, b: Metrics, s: TickSample, n: int)
    requires
        0 <= n < u64::MAX,
        ticked(a, b, s),
        a.fine.ring.written == n,
        a.minute.ring.written == n / 12,
        a.hourly.ring.written == n / 720,
        a.daily.ring.written == n / 17280,
    ensures
        b.fine.ring.written == n + 1,
        b.minute.ring.written == (n + 1) / 12,
        b.hourly.ring.written == (n + 1) / 720,
        b.daily.ring.written == (n + 1) / 17280,
{
    lemma_whole_parts(n);
}

/// Since the start every tick has written a fine slot, every twelfth of them a minute,
/// every sixtieth minute an hour, and every twenty-fourth hour a day.
pub proof fn law_ticks_fill_the_archives(a: Seq<Metrics>, b: Seq<Metrics>, s: Seq<TickSample>)
    requires
        ticked_in_turn(a, b, s),
        a[0].is_fresh(),
    ensures
        b.last().fine.ring.written == a.len(),
        b.last().minute.ring.written == a.len() as int / 12,
        b.last().hourly.ring.written == a.len() as int / 720,
        b.last().daily.ring.written == a.len() as int / 17280,
    decreases a.len(),
{
    let n = a.len() - 1;
    if n > 0 {
        let a0 = a.drop_last();
        let b0 = b.drop_last();
        let s0 = s.drop_last();
        assert forall|i: int| 0 <= i < a0.len() implies ticked(#[trigger] a0[i], b0[i], s0[i]) by {
            assert(a[i] == a0[i]);
        }
        assert forall|i: int| 0 <= i < a0.len() - 1 implies (#[trigger] b0[i]).fine == a0[i + 1].fine
            && b0[i].minute == a0[i + 1].minute && b0[i].hourly == a0[i + 1].hourly && b0[i].daily
            == a0[i + 1].daily by {
            assert(b[i] == b0[i]);
        }
        law_ticks_fill_the_archives(a0, b0, s0);
        assert(b0.last() == b[n - 1]);
        assert(b[n - 1].fine == a[n].fine);
    }
    assert(a[n].fine.ring.written == n);
    lemma_tick_counts(a[n], b[n], s[n], n);
}

} // verus!
