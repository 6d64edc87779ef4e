//! Sparklines and top paths of a time window.
use crate::metrics::archive::{Ring, Series, Slot};
use crate::metrics::history::CoarseArchive;
use crate::metrics::paths::{add_pairs, is_top_of, tally, top_of, with_pairs, TOP_PATHS_LIMIT};
use crate::metrics::period::{ArchiveKind, TimePeriod, FINE_SLOTS};
use crate::metrics::snapshot::{Rate, SparklineData};
use crate::metrics::Metrics;
use crate::strmap::pairs_of;
use vstd::prelude::*;

verus! {

/// A series of a run of slots.
pub open spec fn series_of(run: Seq<Slot>, f: Series) -> Seq<u32> {
    Seq::new(run.len(), |i: int| run[i].of(f) as u32)
}

impl SparklineData {
    /// The data show a run of slots, each `step` seconds wide.
    pub open spec fn shows(&self, run: Seq<Slot>, step: u64) -> bool {
        &&& self.step_secs == step
        &&& self.req_rate@ == Seq::new(
            run.len(),
            |i: int| Rate { requests: run[i].req as u64, secs: step },
        )
        &&& self.mem_kb@ == Seq::new(
            run.len(),
            |i: int|
                if run[i].mem == 0 {
                    None
                } else {
                    Some(run[i].mem)
                },
        )
        &&& self.cpu_pct@ == series_of(run, Series::Cpu)
        &&& self.auth_fail@ == series_of(run, Series::Auth)
        &&& self.jwt_fail@ == series_of(run, Series::Jwt)
        &&& self.jwt_expiry@ == series_of(run, Series::JwtExpiry)
        &&& self.jwt_issued@ == series_of(run, Series::JwtIssued)
        &&& self.err4xx@ == series_of(run, Series::Err4xx)
        &&& self.err5xx@ == series_of(run, Series::Err5xx)
        &&& self.active@ == series_of(run, Series::Active)
    }
}

fn column(run: &Vec<Slot>, f: Series) -> (r: Vec<u32>)
    ensures
        r@ == series_of(run@, f),
{
    let n: usize = run.len();
    let mut out: Vec<u32> = Vec::new();
    let mut i: usize = 0;
    while i < n
        invariant
            i <= n,
            n == run@.len(),
            out@ == series_of(run@, f).take(i as int),
        decreases n - i,
    {
        out.push(run[i].value(f));
        i = i + 1;
        assert(out@ =~= series_of(run@, f).take(i as int));
    }
    assert(out@ =~= series_of(run@, f));
    out
}

fn chart(run: &Vec<Slot>, step: u64) -> (r: SparklineData)
    ensures
        r.shows(run@, step),
{
    let n: usize = run.len();
    let mut req_rate: Vec<Rate> = Vec::new();
    let mut mem_kb: Vec<Option<u32>> = Vec::new();
    let mut i: usize = 0;
    while i < n
        invariant
            i <= n,
            n == run@.len(),
            req_rate@ == Seq::new(
                i as nat,
                |j: int| Rate { requests: run@[j].req as u64, secs: step },
            ),
            mem_kb@ == Seq::new(
                i as nat,
                |j: int|
                    if run@[j].mem == 0 {
                        None
                    } else {
                        Some(run@[j].mem)
                    },
            ),
        decreases n - i,
    {
        req_rate.push(Rate { requests: run[i].req as u64, secs: step });
        mem_kb.push(
            if run[i].mem == 0 {
                None
            } else {
                Some(run[i].mem)
            },
        );
        i = i + 1;
        assert(req_rate@ =~= Seq::new(
            i as nat,
            |j: int| Rate { requests: run@[j].req as u64, secs: step },
        ));
        assert(mem_kb@ =~= Seq::new(
            i as nat,
            |j: int|
                if run@[j].mem == 0 {
                    None
                } else {
                    Some(run@[j].mem)
                },
        ));
    }
    SparklineData {
        step_secs: step,
        req_rate,
        mem_kb,
        cpu_pct: column(run, Series::Cpu),
        auth_fail: column(run, Series::Auth),
        jwt_fail: column(run, Series::Jwt),
        jwt_expiry: column(run, Series::JwtExpiry),
        jwt_issued: column(run, Series::JwtIssued),
        err4xx: column(run, Series::Err4xx),
        err5xx: column(run, Series::Err5xx),
        active: column(run, Series::Active),
    }
}

/// The smaller of a count and a capacity.
pub open spec fn capped(n: int, cap: int) -> int {
    if n < cap {
        n
    } else {
        cap
    }
}

fn cap_at(n: usize, cap: usize) -> (r: usize)
    ensures
        r == capped(n as int, cap as int),
{
    if n < cap {
        n
    } else {
        cap
    }
}

impl Metrics {
    /// The ring behind an archive.
    pub open spec fn ring_of(&self, kind: ArchiveKind) -> Ring {
        match kind {
            ArchiveKind::Fine => self.fine.ring,
            ArchiveKind::Minute => self.minute.ring,
            ArchiveKind::Hourly => self.hourly.ring,
            ArchiveKind::Daily => self.daily.ring,
        }
    }

    /// The hits of an archive's `n` most recent slots; those of the fine one
    /// count the slot in progress too.
    pub open spec fn hits_of(&self, kind: ArchiveKind, n: int) -> Map<Seq<char>, u64> {
        match kind {
            ArchiveKind::Fine => with_pairs(
                tally(self.paths.recent(n)),
                self.paths.current.pairs(),
            ),
            ArchiveKind::Minute => tally(self.minute.recent_paths(n)),
            ArchiveKind::Hourly => tally(self.hourly.recent_paths(n)),
            ArchiveKind::Daily => tally(self.daily.recent_paths(n)),
        }
    }

    /// Sparkline data of a time window, oldest slot first.
    pub fn sparkline_for_period(&self, period: TimePeriod) -> (r: SparklineData)
        requires
            self.wf(),
        ensures
            r.shows(
                self.ring_of(period.backing()).recent(
                    period.span_secs() / period.backing().step(),
                ),
                period.backing().step() as u64,
            ),
    {
        let (kind, n_slots) = period.archive();
        let step: u64 = period.step_secs();
        match kind {
            ArchiveKind::Fine => self.fine_sparkline(n_slots, step),
            ArchiveKind::Minute => self.coarse_sparkline(&self.minute, n_slots, step),
            ArchiveKind::Hourly => self.coarse_sparkline(&self.hourly, n_slots, step),
            ArchiveKind::Daily => self.coarse_sparkline(&self.daily, n_slots, step),
        }
    }

    pub fn fine_sparkline(&self, n: usize, step: u64) -> (r: SparklineData)
        requires
            self.wf(),
        ensures
            r.shows(self.fine.ring.recent(capped(n as int, FINE_SLOTS as int)), step),
    {
        chart(&self.fine.ring.last_slots(cap_at(n, FINE_SLOTS)), step)
    }

    pub fn coarse_sparkline(&self, archive: &CoarseArchive, n: usize, step: u64) -> (r:
        SparklineData)
        requires
            archive.wf(),
        ensures
            r.shows(archive.ring.recent(capped(n as int, archive.cap())), step),
    {
        chart(&archive.ring.last_slots(cap_at(n, archive.paths.len())), step)
    }

    /// The paths with the most hits of a time window, most hits first.
    pub fn paths_for_period(&self, period: TimePeriod) -> (r: Vec<(String, u64)>)
        requires
            self.wf(),
        ensures
            is_top_of(
                self.hits_of(period.backing(), period.span_secs() / period.backing().step()),
                20,
                pairs_of(r@),
            ),
    {
        let (kind, n_slots) = period.archive();
        assert(n_slots == period.span_secs() / period.backing().step());
        match kind {
            ArchiveKind::Fine => self.fine_paths(n_slots),
            ArchiveKind::Minute => self.coarse_paths(&self.minute, n_slots),
            ArchiveKind::Hourly => self.coarse_paths(&self.hourly, n_slots),
            ArchiveKind::Daily => self.coarse_paths(&self.daily, n_slots),
        }
    }

    pub fn fine_paths(&self, n: usize) -> (r: Vec<(String, u64)>)
        requires
            self.wf(),
        ensures
            is_top_of(
                self.hits_of(ArchiveKind::Fine, capped(n as int, FINE_SLOTS as int)),
                20,
                pairs_of(r@),
            ),
    {
        let mut counts = self.paths.tally_recent(cap_at(n, FINE_SLOTS));
        add_pairs(&mut counts, self.paths.current.entries());
        top_of(&counts, TOP_PATHS_LIMIT)
    }

    pub fn coarse_paths(&self, archive: &CoarseArchive, n: usize) -> (r: Vec<(String, u64)>)
        requires
            archive.wf(),
        ensures
            is_top_of(
                tally(archive.recent_paths(capped(n as int, archive.cap()))),
                20,
                pairs_of(r@),
            ),
    {
        let counts = archive.tally_recent(cap_at(n, archive.paths.len()));
        top_of(&counts, TOP_PATHS_LIMIT)
    }
}

} // verus!
