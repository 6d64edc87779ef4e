//! Fixed-size ring archives of traffic samples and their consolidation into
//! coarser ones.
use vstd::prelude::*;

verus! {

/// One archived interval of traffic.
#[derive(Clone, Copy, Debug, PartialEq, Eq)]
pub struct Slot {
    /// Requests completed in the interval.
    pub req: u32,
    /// Resident memory in KiB; 0 means that none was sampled.
    pub mem: u32,
    /// CPU use in hundredths of a percent.
    pub cpu: u16,
    /// Failed authentications.
    pub auth: u16,
    /// JWT bad-signature failures.
    pub jwt: u16,
    /// JWT tokens presented after their expiry.
    pub jwt_expiry: u16,
    /// JWT session cookies issued.
    pub jwt_issued: u16,
    /// 4xx responses.
    pub err4xx: u16,
    /// 5xx responses.
    pub err5xx: u16,
    /// Requests in flight (a gauge).
    pub active: u16,
}

/// The series that a slot holds a value of.
#[derive(Clone, Copy, Debug, PartialEq, Eq)]
pub enum Series {
    Req,
    Mem,
    Cpu,
    Auth,
    Jwt,
    JwtExpiry,
    JwtIssued,
    Err4xx,
    Err5xx,
    Active,
}

impl Slot {
    /// The value that the slot holds of a series.
    pub open spec fn of(self, f: Series) -> int {
        match f {
            Series::Req => self.req as int,
            Series::Mem => self.mem as int,
            Series::Cpu => self.cpu as int,
            Series::Auth => self.auth as int,
            Series::Jwt => self.jwt as int,
            Series::JwtExpiry => self.jwt_expiry as int,
            Series::JwtIssued => self.jwt_issued as int,
            Series::Err4xx => self.err4xx as int,
            Series::Err5xx => self.err5xx as int,
            Series::Active => self.active as int,
        }
    }

    pub fn value(&self, f: Series) -> (r: u32)
        ensures
            r == self.of(f),
    {
        match f {
            Series::Req => self.req,
            Series::Mem => self.mem,
            Series::Cpu => self.cpu as u32,
            Series::Auth => self.auth as u32,
            Series::Jwt => self.jwt as u32,
            Series::JwtExpiry => self.jwt_expiry as u32,
            Series::JwtIssued => self.jwt_issued as u32,
            Series::Err4xx => self.err4xx as u32,
            Series::Err5xx => self.err5xx as u32,
            Series::Active => self.active as u32,
        }
    }

    /// The slot in which nothing happened.
    pub open spec fn zero() -> Slot {
        Slot {
            req: 0,
            mem: 0,
            cpu: 0,
            auth: 0,
            jwt: 0,
            jwt_expiry: 0,
            jwt_issued: 0,
            err4xx: 0,
            err5xx: 0,
            active: 0,
        }
    }

    pub fn empty() -> (r: Slot)
        ensures
            r == Slot::zero(),
    {
        Slot {
            req: 0,
            mem: 0,
            cpu: 0,
            auth: 0,
            jwt: 0,
            jwt_expiry: 0,
            jwt_issued: 0,
            err4xx: 0,
            err5xx: 0,
            active: 0,
        }
    }
}

/// The most slots that an archive may have.
pub const MAX_SLOTS: usize = 0x7fff_ffff;

/// Where the `i`-th of the `n` most recent slots, oldest first, stands in a
/// ring of `cap` slots whose next write goes to `head`.
pub open spec fn ring_index(head: int, cap: int, n: int, i: int) -> int {
    if head + cap - n + i < cap {
        head + cap - n + i
    } else {
        head - n + i
    }
}

/// The index of [`ring_index`].
pub fn ring_at(head: usize, cap: usize, n: usize, i: usize) -> (r: usize)
    requires
        0 < cap <= MAX_SLOTS,
        head < cap,
        n <= cap,
        i < n,
    ensures
        r == ring_index(head as int, cap as int, n as int, i as int),
        r < cap,
        r == (head + cap - n + i) % (cap as int),
{
    proof {
        let x = head + cap - n + i;
        if x < cap {
            vstd::arithmetic::div_mod::lemma_small_mod(x as nat, cap as nat);
        } else {
            vstd::arithmetic::div_mod::lemma_mod_sub_multiples_vanish(x, cap as int);
            vstd::arithmetic::div_mod::lemma_small_mod((x - cap) as nat, cap as nat);
        }
    }
    (head + cap - n + i) % cap
}

/// The place that follows `head` in a ring of `cap` slots.
pub open spec fn ring_next(head: int, cap: int) -> int {
    if head + 1 < cap {
        head + 1
    } else {
        0
    }
}

pub fn ring_step(head: usize, cap: usize) -> (r: usize)
    requires
        0 < cap <= MAX_SLOTS,
        head < cap,
    ensures
        r == ring_next(head as int, cap as int),
        r < cap,
{
    if head + 1 < cap {
        head + 1
    } else {
        0
    }
}

/// The `n` most recent entries of a ring, oldest first.
pub open spec fn ring_recent<T>(slots: Seq<T>, head: int, n: int) -> Seq<T> {
    Seq::new(n as nat, |i: int| slots[ring_index(head, slots.len() as int, n, i)])
}

/// Writing at `head` and stepping on makes the written entry the most recent
/// one and leaves the order of the others as it was.
pub proof fn lemma_ring_write<T>(slots: Seq<T>, head: int, x: T, n: int)
    requires
        0 <= head < slots.len(),
        0 <= n < slots.len(),
    ensures
        ring_recent(slots.update(head, x), ring_next(head, slots.len() as int), n + 1)
            == ring_recent(slots, head, n).push(x),
{
    let a = ring_recent(slots.update(head, x), ring_next(head, slots.len() as int), n + 1);
    let b = ring_recent(slots, head, n).push(x);
    assert(a =~= b);
}

/// The sum of a series over slots.
pub open spec fn total(s: Seq<Slot>, f: Series) -> int
    decreases s.len(),
{
    if s.len() == 0 {
        0
    } else {
        total(s.drop_last(), f) + s.last().of(f)
    }
}

pub proof fn lemma_total_bounds(s: Seq<Slot>, f: Series)
    ensures
        0 <= total(s, f) <= s.len() * 0xffff_ffff,
        f != Series::Req && f != Series::Mem ==> total(s, f) <= s.len() * 0xffff,
    decreases s.len(),
{
    if s.len() > 0 {
        lemma_total_bounds(s.drop_last(), f);
    }
}

/// The slots in which memory was sampled.
pub open spec fn sampled(s: Seq<Slot>) -> Seq<Slot>
    decreases s.len(),
{
    if s.len() == 0 {
        Seq::empty()
    } else if s.last().mem > 0 {
        sampled(s.drop_last()).push(s.last())
    } else {
        sampled(s.drop_last())
    }
}

/// The mean of a series over slots, rounded down, or 0 over none.
pub open spec fn mean(s: Seq<Slot>, f: Series) -> int {
    if s.len() == 0 {
        0
    } else {
        total(s, f) / (s.len() as int)
    }
}

/// The one slot that stands for a run of slots: counts add up modulo the width
/// of their field, memory and CPU are averaged over the slots that sampled
/// memory, and the in-flight gauge is averaged over all.
pub open spec fn consolidated(s: Seq<Slot>) -> Slot {
    Slot {
        req: (total(s, Series::Req) % 0x1_0000_0000) as u32,
        mem: mean(sampled(s), Series::Mem) as u32,
        cpu: mean(sampled(s), Series::Cpu) as u16,
        auth: (total(s, Series::Auth) % 0x1_0000) as u16,
        jwt: (total(s, Series::Jwt) % 0x1_0000) as u16,
        jwt_expiry: (total(s, Series::JwtExpiry) % 0x1_0000) as u16,
        jwt_issued: (total(s, Series::JwtIssued) % 0x1_0000) as u16,
        err4xx: (total(s, Series::Err4xx) % 0x1_0000) as u16,
        err5xx: (total(s, Series::Err5xx) % 0x1_0000) as u16,
        active: mean(s, Series::Active) as u16,
    }
}

proof fn lemma_mean_bound(s: Seq<Slot>, f: Series)
    ensures
        0 <= mean(s, f) <= 0xffff_ffff,
        f != Series::Req && f != Series::Mem ==> mean(s, f) <= 0xffff,
{
    lemma_total_bounds(s, f);
    if s.len() > 0 {
        let t = total(s, f);
        let l = s.len() as int;
        assert(0 <= t / l <= 0xffff_ffff) by (nonlinear_arith)
            requires
                0 <= t <= l * 0xffff_ffff,
                l > 0,
        ;
        if f != Series::Req && f != Series::Mem {
            assert(t / l <= 0xffff) by (nonlinear_arith)
                requires
                    0 <= t <= l * 0xffff,
                    l > 0,
            ;
        }
    }
}

/// A ring of slots: the next write goes to `head`.
pub struct Ring {
    pub slots: Vec<Slot>,
    pub head: usize,
    /// Slots ever written, modulo 2^64.
    pub written: u64,
}

impl Ring {
    pub open spec fn wf(&self) -> bool {
        &&& 0 < self.slots@.len() <= MAX_SLOTS
        &&& self.head < self.slots@.len()
    }

    /// The number of slots.
    pub open spec fn cap(&self) -> int {
        self.slots@.len() as int
    }

    /// The `n` most recent slots, oldest first.
    pub open spec fn recent(&self, n: int) -> Seq<Slot> {
        ring_recent(self.slots@, self.head as int, n)
    }

    /// A ring of `cap` empty slots.
    pub fn new(cap: usize) -> (r: Ring)
        requires
            0 < cap <= MAX_SLOTS,
        ensures
            r.wf(),
            r.cap() == cap,
            r.head == 0,
            r.written == 0,
            forall|i: int| 0 <= i < cap ==> r.slots@[i] == Slot::zero(),
    {
        let mut slots: Vec<Slot> = Vec::new();
        let mut i: usize = 0;
        while i < cap
            invariant
                i <= cap,
                slots@.len() == i,
                forall|j: int| 0 <= j < i ==> slots@[j] == Slot::zero(),
            decreases cap - i,
        {
            slots.push(Slot::empty());
            i = i + 1;
        }
        Ring { slots, head: 0, written: 0 }
    }

    /// Writes a slot and steps on. Every run of most recent slots that leaves
    /// room for one more is extended by it.
    pub fn push(&mut self, slot: Slot)
        requires
            old(self).wf(),
        ensures
            final(self).wf(),
            final(self).cap() == old(self).cap(),
            final(self).slots@ == old(self).slots@.update(old(self).head as int, slot),
            final(self).head == ring_next(old(self).head as int, old(self).cap()),
            final(self).written == old(self).written.wrapping_add(1),
            forall|n: int|
                0 <= n < old(self).cap() ==> #[trigger] final(self).recent(n + 1) == old(
                    self,
                ).recent(n).push(slot),
    {
        let cap: usize = self.slots.len();
        let head: usize = self.head;
        let ghost s0 = self.slots@;
        self.slots[head] = slot;
        self.head = ring_step(head, cap);
        self.written = self.written.wrapping_add(1);
        proof {
            assert forall|n: int| 0 <= n < old(self).cap() implies #[trigger] self.recent(n + 1)
                == old(self).recent(n).push(slot) by {
                lemma_ring_write(s0, head as int, slot, n);
            }
        }
    }

    /// The `n` most recent slots, oldest first.
    pub fn last_slots(&self, n: usize) -> (r: Vec<Slot>)
        requires
            self.wf(),
            n <= self.cap(),
        ensures
            r@ == self.recent(n as int),
    {
        let cap: usize = self.slots.len();
        let mut out: Vec<Slot> = Vec::new();
        let mut i: usize = 0;
        while i < n
            invariant
                self.wf(),
                cap == self.cap(),
                n <= cap,
                i <= n,
                out@ == self.recent(n as int).take(i as int),
            decreases n - i,
        {
            out.push(self.slots[ring_at(self.head, cap, n, i)]);
            i = i + 1;
            assert(out@ =~= self.recent(n as int).take(i as int));
        }
        assert(out@ =~= self.recent(n as int));
        out
    }

    /// The most recently written slot.
    pub fn latest(&self) -> (r: Slot)
        requires
            self.wf(),
        ensures
            r == self.recent(1)[0],
    {
        self.slots[ring_at(self.head, self.slots.len(), 1, 0)]
    }

    /// The sum of a series over the `n` most recent slots, or over all where
    /// there are fewer.
    pub fn window(&self, f: Series, n: usize) -> (r: u64)
        requires
            self.wf(),
        ensures
            r == total(
                self.recent(
                    if n < self.cap() {
                        n as int
                    } else {
                        self.cap()
                    },
                ),
                f,
            ),
    {
        let cap: usize = self.slots.len();
        let m: usize = if n < cap {
            n
        } else {
            cap
        };
        sum_series(&self.last_slots(m), f)
    }
}

fn count_sampled(s: &Vec<Slot>) -> (r: (u64, u64, u64))
    requires
        s@.len() <= MAX_SLOTS,
    ensures
        r.0 == sampled(s@).len(),
        r.1 == total(sampled(s@), Series::Mem),
        r.2 == total(sampled(s@), Series::Cpu),
{
    let n: usize = s.len();
    let mut count: u64 = 0;
    let mut mem: u64 = 0;
    let mut cpu: u64 = 0;
    let mut i: usize = 0;
    while i < n
        invariant
            i <= n <= MAX_SLOTS,
            s@.len() == n,
            count == sampled(s@.take(i as int)).len(),
            count <= i,
            mem == total(sampled(s@.take(i as int)), Series::Mem),
            cpu == total(sampled(s@.take(i as int)), Series::Cpu),
        decreases n - i,
    {
        proof {
            let k = sampled(s@.take(i as int));
            lemma_total_bounds(k, Series::Mem);
            lemma_total_bounds(k, Series::Cpu);
            assert(s@.take(i + 1).drop_last() =~= s@.take(i as int));
            assert(k.push(s@[i as int]).drop_last() =~= k);
        }
        if s[i].mem > 0 {
            count = count + 1;
            mem = mem + s[i].mem as u64;
            cpu = cpu + s[i].cpu as u64;
        }
        i = i + 1;
    }
    assert(s@.take(n as int) =~= s@);
    (count, mem, cpu)
}

fn sum_series(s: &Vec<Slot>, f: Series) -> (r: u64)
    requires
        s@.len() <= MAX_SLOTS,
    ensures
        r == total(s@, f),
{
    let n: usize = s.len();
    let mut t: u64 = 0;
    let mut i: usize = 0;
    while i < n
        invariant
            i <= n <= MAX_SLOTS,
            s@.len() == n,
            t == total(s@.take(i as int), f),
        decreases n - i,
    {
        proof {
            lemma_total_bounds(s@.take(i as int), f);
            assert(s@.take(i + 1).drop_last() =~= s@.take(i as int));
        }
        t = t + s[i].value(f) as u64;
        i = i + 1;
    }
    assert(s@.take(n as int) =~= s@);
    t
}

fn low16(x: u64) -> (r: u16)
    ensures
        r == x % 0x1_0000,
{
    (x % 0x1_0000) as u16
}

/// Consolidates a run of slots into one.
pub fn consolidate(s: &Vec<Slot>) -> (r: Slot)
    requires
        0 < s@.len() <= MAX_SLOTS,
    ensures
        r == consolidated(s@),
{
    let (count, mem, cpu) = count_sampled(s);
    let active: u64 = sum_series(s, Series::Active);
    proof {
        lemma_mean_bound(sampled(s@), Series::Mem);
        lemma_mean_bound(sampled(s@), Series::Cpu);
        lemma_mean_bound(s@, Series::Active);
    }
    Slot {
        req: (sum_series(s, Series::Req) % 0x1_0000_0000) as u32,
        mem: if count == 0 {
            0
        } else {
            (mem / count) as u32
        },
        cpu: if count == 0 {
            0
        } else {
            (cpu / count) as u16
        },
        auth: low16(sum_series(s, Series::Auth)),
        jwt: low16(sum_series(s, Series::Jwt)),
        jwt_expiry: low16(sum_series(s, Series::JwtExpiry)),
        jwt_issued: low16(sum_series(s, Series::JwtIssued)),
        err4xx: low16(sum_series(s, Series::Err4xx)),
        err5xx: low16(sum_series(s, Series::Err5xx)),
        active: (active / (s.len() as u64)) as u16,
    }
}

} // verus!
