//! Token-bucket rate limiter, keyed on client IP, authenticated user, or a
//! configured request header.
//!
//! Tokens are counted in exact fractions: with `rate` tokens per `per_secs`
//! seconds, one token is `per_secs` times 10^9 units, and every nanosecond
//! restores `rate` units.
use crate::headers::{first_text, get_text, header_values};
use crate::strmap::{lemma_pairs_map, StrMap};
use vstd::prelude::*;

verus! {

/// What the proxy knows of a request while it is served.
pub struct RequestContext<'a> {
    pub client_ip: &'a str,
    pub username: &'a str,
    pub groups: &'a str,
    pub method: &'a str,
    pub path: &'a str,
    pub query: &'a str,
    pub path_and_query: &'a str,
    pub host: &'a str,
    pub scheme: &'a str,
    pub client_cert_subject: &'a str,
    pub client_cert_sans: &'a str,
}

/// How the key of a rule is derived from a request.
pub enum RateLimitKey {
    /// The client's IP address.
    ClientIp,
    /// The user name, empty for an anonymous request.
    User,
    /// The first value of the named header, empty where it is missing or is
    /// not text.
    Header(String),
}

/// The state of one bucket.
#[derive(Clone, Copy, Debug, PartialEq, Eq)]
pub struct Bucket {
    /// Units of tokens held at `last_refill`.
    pub units: u128,
    /// When the bucket was last refilled, in nanoseconds.
    pub last_refill: u64,
}

/// Outcome of `RateLimitRule::check_at`.
#[derive(Clone, Copy, Debug, PartialEq, Eq, Structural)]
pub enum RateLimitOutcome {
    Allow,
    /// Reject with 429; `retry_after_secs` goes into `Retry-After`.
    Deny { retry_after_secs: u32 },
}

/// How fast buckets fill and how much they hold.
#[derive(Clone, Copy, Debug, PartialEq, Eq)]
pub struct Limit {
    /// Tokens restored per `per_secs` seconds.
    pub rate: u64,
    /// Length of the rate's window in seconds.
    pub per_secs: u32,
    /// Most tokens that a bucket holds.
    pub burst: u32,
    /// What it holds on top of that, in billionths of a token.
    pub burst_nanos: u32,
}

/// One configured rate limit with its buckets.
pub struct RateLimitRule {
    /// Name for logs and metrics.
    pub name: String,
    pub limit: Limit,
    pub key: RateLimitKey,
    /// One bucket per derived key.
    pub state: StrMap<Bucket>,
}

/// Nanoseconds per second.
pub const NANOS: u64 = 1_000_000_000;

impl Limit {
    /// A window has some length.
    pub open spec fn wf(self) -> bool {
        self.per_secs > 0
    }

    /// Units of one token.
    pub open spec fn unit(self) -> int {
        self.per_secs * 1_000_000_000
    }

    /// Units of a full bucket.
    pub open spec fn full(self) -> int {
        self.burst * self.unit() + self.burst_nanos * self.per_secs
    }

    /// Units of a bucket at a later time: refilled by the time since, but no
    /// more than full. Time that runs backwards restores nothing.
    pub open spec fn refilled(self, b: Bucket, now: u64) -> int {
        let grown = b.units + now.saturating_sub(b.last_refill) * self.rate;
        if grown < self.full() {
            grown
        } else {
            self.full()
        }
    }

    /// Whole seconds until a bucket with `units` holds one token, at least 1.
    pub open spec fn retry_after(self, units: int) -> int {
        let secs = if self.rate > 0 {
            ceil_div(self.unit() - units, self.rate * 1_000_000_000)
        } else {
            u32::MAX as int
        };
        if secs < 1 {
            1
        } else if secs > u32::MAX {
            u32::MAX as int
        } else {
            secs
        }
    }

    /// The bucket of a key: the one held, or a full one for a new key.
    pub open spec fn bucket_of(self, m: Map<Seq<char>, Bucket>, k: Seq<char>, now: u64) -> Bucket {
        if m.dom().contains(k) {
            m[k]
        } else {
            Bucket { units: self.full() as u128, last_refill: now }
        }
    }

    /// What a probe of a bucket answers.
    pub open spec fn verdict(self, b: Bucket, now: u64) -> RateLimitOutcome {
        let t = self.refilled(b, now);
        if t >= self.unit() {
            RateLimitOutcome::Allow
        } else {
            RateLimitOutcome::Deny { retry_after_secs: self.retry_after(t) as u32 }
        }
    }

    /// The bucket after a probe: refilled, less one token where it was let
    /// through.
    pub open spec fn probed(self, b: Bucket, now: u64) -> Bucket {
        let t = self.refilled(b, now);
        Bucket {
            units: (if t >= self.unit() {
                t - self.unit()
            } else {
                t
            }) as u128,
            last_refill: now,
        }
    }

    /// Whether a bucket is worth keeping: used within the threshold, or not
    /// full again yet.
    pub open spec fn keeps(self, b: Bucket, idle: u64, now: u64) -> bool {
        now.saturating_sub(b.last_refill) < idle || self.refilled(b, now) < self.full()
    }

    fn unit_size(&self) -> (r: u128)
        ensures
            r == self.unit(),
            r <= 0xffff_ffff * 1_000_000_000,
    {
        self.per_secs as u128 * 1_000_000_000
    }

    fn full_size(&self) -> (r: u128)
        ensures
            r == self.full(),
    {
        let u: u128 = self.unit_size();
        let n: u128 = self.burst as u128;
        assert(n * u <= 0xffff_ffff * (0xffff_ffff * 1_000_000_000)) by (nonlinear_arith)
            requires
                n <= 0xffff_ffff,
                u <= 0xffff_ffff * 1_000_000_000,
        ;
        let k: u128 = self.burst_nanos as u128;
        let p: u128 = self.per_secs as u128;
        assert(k * p <= 0xffff_ffff * 0xffff_ffff) by (nonlinear_arith)
            requires
                k <= 0xffff_ffff,
                p <= 0xffff_ffff,
        ;
        n * u + k * p
    }

    fn refill(&self, b: &Bucket, now: u64) -> (r: u128)
        ensures
            r == self.refilled(*b, now),
    {
        let full: u128 = self.full_size();
        let elapsed: u64 = now.saturating_sub(b.last_refill);
        let rate: u64 = self.rate;
        assert(0 <= elapsed * rate <= 0xffff_ffff_ffff_ffff * 0xffff_ffff_ffff_ffff)
            by (nonlinear_arith)
            requires
                0 <= elapsed <= 0xffff_ffff_ffff_ffff,
                0 <= rate <= 0xffff_ffff_ffff_ffff,
        ;
        let grown: u128 = elapsed as u128 * rate as u128;
        if b.units >= full {
            return full;
        }
        if grown >= full - b.units {
            full
        } else {
            b.units + grown
        }
    }
}

/// The quotient of non-negative numbers, rounded up.
pub open spec fn ceil_div(a: int, b: int) -> int {
    if a % b == 0 {
        a / b
    } else {
        a / b + 1
    }
}

/// The key of a request under a rule.
pub open spec fn key_of(
    key: RateLimitKey,
    ctx: RequestContext,
    headers: Map<Seq<char>, Seq<Seq<u8>>>,
) -> Seq<char> {
    match key {
        RateLimitKey::ClientIp => ctx.client_ip@,
        RateLimitKey::User => ctx.username@,
        RateLimitKey::Header(name) => match first_text(headers, name@) {
            Some(v) => v,
            None => Seq::empty(),
        },
    }
}

impl RateLimitRule {
    pub fn new(name: String, limit: Limit, key: RateLimitKey) -> (r: Self)
        ensures
            r.name == name,
            r.limit == limit,
            r.key == key,
            r.state@ == Map::<Seq<char>, Bucket>::empty(),
    {
        RateLimitRule { name, limit, key, state: StrMap::new() }
    }

    /// Derives the key of a request.
    pub fn key_string(&self, ctx: &RequestContext, headers: &hyper::HeaderMap) -> (r: String)
        ensures
            r@ == key_of(self.key, *ctx, header_values(*headers)),
    {
        match &self.key {
            RateLimitKey::ClientIp => ctx.client_ip.to_owned(),
            RateLimitKey::User => ctx.username.to_owned(),
            RateLimitKey::Header(name) => match get_text(headers, name.as_str()) {
                Some(v) => v,
                None => String::new(),
            },
        }
    }

    /// Probes the bucket of a key at a time: takes one token and lets the
    /// request through, or says when to come back. Other keys are not touched.
    pub fn check_key(&mut self, key: String, now: u64) -> (r: RateLimitOutcome)
        requires
            old(self).limit.wf(),
        ensures
            ({
                let limit = old(self).limit;
                let b = limit.bucket_of(old(self).state@, key@, now);
                &&& r == limit.verdict(b, now)
                &&& final(self).state@ == old(self).state@.insert(key@, limit.probed(b, now))
            }),
            *final(self) == (RateLimitRule { state: final(self).state, ..*old(self) }),
    {
        let limit = self.limit;
        let full: u128 = limit.full_size();
        let unit: u128 = limit.unit_size();
        let b = match self.state.get(key.as_str()) {
            Some(b) => *b,
            None => Bucket { units: full, last_refill: now },
        };
        let t: u128 = limit.refill(&b, now);
        if t >= unit {
            self.state.insert(key, Bucket { units: t - unit, last_refill: now });
            return RateLimitOutcome::Allow;
        }
        self.state.insert(key, Bucket { units: t, last_refill: now });
        RateLimitOutcome::Deny { retry_after_secs: retry_secs(&limit, t) }
    }

    /// Probes the bucket of a request at a time, in nanoseconds.
    pub fn check_at(&mut self, ctx: &RequestContext, headers: &hyper::HeaderMap, now: u64) -> (r:
        RateLimitOutcome)
        requires
            old(self).limit.wf(),
        ensures
            ({
                let limit = old(self).limit;
                let k = key_of(old(self).key, *ctx, header_values(*headers));
                let b = limit.bucket_of(old(self).state@, k, now);
                &&& r == limit.verdict(b, now)
                &&& final(self).state@ == old(self).state@.insert(k, limit.probed(b, now))
            }),
            *final(self) == (RateLimitRule { state: final(self).state, ..*old(self) }),
    {
        let key = self.key_string(ctx, headers);
        self.check_key(key, now)
    }

    /// Drops the buckets that are full again and were not used for at least
    /// `idle` nanoseconds, and returns how many.
    pub fn evict_idle_at(&mut self, idle: u64, now: u64) -> (r: usize)
        requires
            old(self).limit.wf(),
        ensures
            final(self).state@ == kept(old(self).state@, old(self).limit, idle, now),
            r == old(self).state@.dom().len() - final(self).state@.dom().len(),
            *final(self) == (RateLimitRule { state: final(self).state, ..*old(self) }),
    {
        let before: usize = self.state.len();
        let limit = self.limit;
        let full: u128 = limit.full_size();
        let mut i: usize = 0;
        while i < self.state.len()
            invariant
                limit == self.limit,
                limit == old(self).limit,
                full == limit.full(),
                i <= self.state.pairs().len(),
                self.name == old(self).name,
                self.key == old(self).key,
                forall|k: Seq<char>| #[trigger]
                    self.state@.dom().contains(k) ==> old(self).state@.dom().contains(k)
                        && self.state@[k] == old(self).state@[k],
                forall|k: Seq<char>| #[trigger]
                    old(self).state@.dom().contains(k) && !self.state@.dom().contains(k)
                        ==> !limit.keeps(old(self).state@[k], idle, now),
                forall|j: int|
                    0 <= j < i ==> limit.keeps((#[trigger] self.state.pairs()[j]).1, idle, now),
                self.state.pairs().len() <= before,
            decreases self.state.pairs().len() - i,
        {
            let ghost p = self.state.pairs();
            let b = self.state.entries()[i].1;
            assert(p[i as int].1 == b);
            let elapsed: u64 = now.saturating_sub(b.last_refill);
            if elapsed < idle || limit.refill(&b, now) < full {
                i = i + 1;
            } else {
                proof {
                    lemma_pairs_map(p);
                }
                let _gone = self.state.remove_at(i);
                assert forall|j: int| 0 <= j < i implies limit.keeps(
                    (#[trigger] self.state.pairs()[j]).1,
                    idle,
                    now,
                ) by {
                    assert(self.state.pairs()[j] == p[j]);
                }
            }
        }
        let after: usize = self.state.len();
        proof {
            lemma_pairs_map(self.state.pairs());
            let want = kept(old(self).state@, limit, idle, now);
            assert forall|k: Seq<char>| self.state@.dom().contains(k) <==> #[trigger] want.dom()
                .contains(k) by {
                if self.state@.dom().contains(k) {
                    let j = choose|j: int|
                        0 <= j < self.state.pairs().len() && self.state.pairs()[j].0 == k;
                    assert(limit.keeps(self.state.pairs()[j].1, idle, now));
                }
            }
            assert(self.state@ =~= want);
        }
        before - after
    }

    /// Number of buckets held.
    pub fn bucket_count(&self) -> (r: usize)
        ensures
            r == self.state@.dom().len(),
    {
        self.state.len()
    }
}

/// The buckets that an eviction keeps.
pub open spec fn kept(
    m: Map<Seq<char>, Bucket>,
    limit: Limit,
    idle: u64,
    now: u64,
) -> Map<Seq<char>, Bucket> {
    m.restrict(m.dom().filter(|k: Seq<char>| limit.keeps(m[k], idle, now)))
}

fn retry_secs(limit: &Limit, t: u128) -> (r: u32)
    requires
        t < limit.unit(),
    ensures
        r == limit.retry_after(t as int),
{
    if limit.rate == 0 {
        return u32::MAX;
    }
    let need: u128 = limit.unit_size() - t;
    let per_sec: u128 = limit.rate as u128 * 1_000_000_000;
    let whole: u128 = need / per_sec;
    let secs: u128 = if need % per_sec == 0 {
        whole
    } else {
        assert(whole <= need) by (nonlinear_arith)
            requires
                whole == need / per_sec,
                per_sec > 0,
        ;
        whole + 1
    };
    if secs < 1 {
        1
    } else if secs > 0xffff_ffff {
        u32::MAX
    } else {
        secs as u32
    }
}

/// The buckets held by all rules, modulo 2^64.
pub open spec fn active_keys(rules: Seq<RateLimitRule>) -> u64
    decreases rules.len(),
{
    if rules.len() == 0 {
        0
    } else {
        active_keys(rules.drop_last()).wrapping_add(rules.last().state@.dom().len() as u64)
    }
}

/// Idle time in nanoseconds after which a full bucket is dropped: 10 minutes.
pub const IDLE_THRESHOLD: u64 = 600_000_000_000;

/// One sweep of the eviction task: drops the idle buckets of every rule and
/// returns how many buckets are left in all.
pub fn sweep(rules: &mut Vec<RateLimitRule>, now: u64) -> (r: u64)
    requires
        forall|i: int| 0 <= i < old(rules)@.len() ==> (#[trigger] old(rules)@[i]).limit.wf(),
    ensures
        final(rules)@.len() == old(rules)@.len(),
        forall|i: int|
            0 <= i < old(rules)@.len() ==> (#[trigger] final(rules)@[i]).state@ == kept(
                old(rules)@[i].state@,
                old(rules)@[i].limit,
                600_000_000_000,
                now,
            ) && final(rules)@[i] == (RateLimitRule {
                state: final(rules)@[i].state,
                ..old(rules)@[i]
            }),
        r == active_keys(final(rules)@),
{
    let n: usize = rules.len();
    let mut active: u64 = 0;
    let mut i: usize = 0;
    while i < n
        invariant
            i <= n,
            n == rules@.len(),
            n == old(rules)@.len(),
            forall|j: int| 0 <= j < n ==> (#[trigger] old(rules)@[j]).limit.wf(),
            forall|j: int| i <= j < n ==> #[trigger] rules@[j] == old(rules)@[j],
            forall|j: int|
                0 <= j < i ==> (#[trigger] rules@[j]).state@ == kept(
                    old(rules)@[j].state@,
                    old(rules)@[j].limit,
                    IDLE_THRESHOLD,
                    now,
                ) && rules@[j] == (RateLimitRule { state: rules@[j].state, ..old(rules)@[j] }),
            active == active_keys(rules@.take(i as int)),
        decreases n - i,
    {
        let ghost before = rules@;
        assert(rules@[i as int] == old(rules)@[i as int]);
        let _dropped: usize = rules[i].evict_idle_at(IDLE_THRESHOLD, now);
        let count: usize = rules[i].bucket_count();
        active = active.wrapping_add(count as u64);
        proof {
            assert(rules@.take(i as int) =~= before.take(i as int));
            assert(rules@.take(i + 1).drop_last() =~= rules@.take(i as int));
        }
        i = i + 1;
    }
    assert(rules@.take(n as int) =~= rules@);
    active
}

/// A bucket after probes at the given times, and how many were let through.
pub open spec fn probe_run(limit: Limit, b: Bucket, times: Seq<u64>) -> (Bucket, nat)
    decreases times.len(),
{
    if times.len() == 0 {
        (b, 0)
    } else {
        let (c, n) = probe_run(limit, b, times.drop_last());
        (
            limit.probed(c, times.last()),
            if limit.verdict(c, times.last()) == RateLimitOutcome::Allow {
                n + 1
            } else {
                n
            },
        )
    }
}

proof fn lemma_probe_run(limit: Limit, b: Bucket, times: Seq<u64>)
    requires
        limit.wf(),
        times.len() > 0,
        forall|i: int, j: int| 0 <= i <= j < times.len() ==> times[i] <= times[j],
    ensures
        ({
            let (c, n) = probe_run(limit, b, times);
            &&& n * limit.unit() + c.units <= limit.full() + (times.last() - times[0]) * limit.rate
            &&& c.last_refill == times.last()
        }),
    decreases times.len(),
{
    let front = times.drop_last();
    let (c, n) = probe_run(limit, b, front);
    let now = times.last();
    let t = limit.refilled(c, now);
    let unit = limit.unit();
    let rate = limit.rate as int;
    lemma_full_fits(limit);
    assert(now.saturating_sub(c.last_refill) * rate >= 0) by (nonlinear_arith)
        requires
            rate >= 0,
    ;
    assert((n + 1) * unit == n * unit + unit) by (nonlinear_arith);
    assert(0 * unit == 0);
    if front.len() > 0 {
        lemma_probe_run(limit, b, front);
        let e = now - c.last_refill;
        let d = c.last_refill - times[0];
        assert((now - times[0]) * rate == d * rate + e * rate) by (nonlinear_arith)
            requires
                now - times[0] == d + e,
        ;
    } else {
        assert(n == 0);
        assert((now - times[0]) * rate == 0) by (nonlinear_arith)
            requires
                now == times[0],
        ;
    }
}

proof fn lemma_full_fits(limit: Limit)
    ensures
        0 <= limit.full() <= u128::MAX,
{
    let u = limit.unit();
    let n = limit.burst as int;
    let k = limit.burst_nanos as int;
    let p = limit.per_secs as int;
    assert(0 <= k * p <= 0xffff_ffff * 0xffff_ffff) by (nonlinear_arith)
        requires
            0 <= k <= 0xffff_ffff,
            0 <= p <= 0xffff_ffff,
    ;
    assert(0 <= n * u <= 0xffff_ffff * (0xffff_ffff * 1_000_000_000)) by (nonlinear_arith)
        requires
            0 <= n <= 0xffff_ffff,
            0 <= u <= 0xffff_ffff * 1_000_000_000,
    ;
}

/// Over any span of time a key gets no more requests through than the burst
/// and what the rate restores in that span: counted in units, the requests let
/// through from one probe of a bucket to a later one take no more than a full bucket
/// and the refill of the time between, whatever the bucket held before.
pub proof fn law_allowed_requests_are_bounded(limit: Limit, b: Bucket, times: Seq<u64>)
    requires
        limit.wf(),
        times.len() > 0,
        forall|i: int, j: int| 0 <= i <= j < times.len() ==> times[i] <= times[j],
    ensures
        probe_run(limit, b, times).1 * limit.unit() <= limit.full() + (times.last() - times[0])
            * limit.rate,
{
    lemma_probe_run(limit, b, times);
}

/// A bucket never holds more than the burst once it was probed.
pub proof fn law_refill_caps_at_burst(limit: Limit, b: Bucket, now: u64)
    requires
        limit.wf(),
    ensures
        limit.refilled(b, now) <= limit.full(),
        limit.probed(b, now).units <= limit.full(),
{
    lemma_full_fits(limit);
    assert(now.saturating_sub(b.last_refill) * limit.rate >= 0) by (nonlinear_arith);
}

/// A denied request that comes back after the seconds it was told is let
/// through, unless others took the token meanwhile.
pub proof fn law_retry_after_suffices(limit: Limit, b: Bucket, now: u64, secs: u32)
    requires
        limit.wf(),
        limit.rate > 0,
        limit.full() >= limit.unit(),
        limit.verdict(b, now) == (RateLimitOutcome::Deny { retry_after_secs: secs }),
        secs < u32::MAX,
        now + secs * 1_000_000_000 <= u64::MAX,
    ensures
        limit.verdict(limit.probed(b, now), (now + secs * 1_000_000_000) as u64)
            == RateLimitOutcome::Allow,
{
    lemma_full_fits(limit);
    let t = limit.refilled(b, now);
    let c = limit.probed(b, now);
    let later = (now + secs * 1_000_000_000) as u64;
    let per_sec = limit.rate * 1_000_000_000;
    let need = limit.unit() - t;
    let rate = limit.rate as int;
    assert(now.saturating_sub(b.last_refill) * limit.rate >= 0) by (nonlinear_arith);
    assert(c.units == t);
    let k = ceil_div(need, per_sec);
    assert(k * per_sec >= need) by (nonlinear_arith)
        requires
            per_sec > 0,
            k == (if need % per_sec == 0 {
                need / per_sec
            } else {
                need / per_sec + 1
            }),
    ;
    assert(k <= secs);
    assert(secs * per_sec >= k * per_sec) by (nonlinear_arith)
        requires
            k <= secs,
            per_sec > 0,
    ;
    assert((secs * 1_000_000_000) * rate == secs * per_sec) by (nonlinear_arith)
        requires
            per_sec == rate * 1_000_000_000,
    ;
    assert((later - now) * rate >= need);
}

/// The wait that a denied request is told is never zero.
pub proof fn law_retry_after_is_positive(limit: Limit, units: int)
    ensures
        1 <= limit.retry_after(units) <= u32::MAX,
{
}

/// The wait that a denied request is told is the least number of whole seconds: one
/// that comes back after fewer is denied again.
pub proof fn law_retry_after_is_least(limit: Limit, b: Bucket, now: u64, secs: u32, fewer: u32)
    requires
        limit.wf(),
        limit.verdict(b, now) == (RateLimitOutcome::Deny { retry_after_secs: secs }),
        fewer < secs,
        now + fewer * 1_000_000_000 <= u64::MAX,
    ensures
        limit.verdict(limit.probed(b, now), (now + fewer * 1_000_000_000) as u64) is Deny,
{
    lemma_full_fits(limit);
    let t = limit.refilled(b, now);
    let c = limit.probed(b, now);
    let later = (now + fewer * 1_000_000_000) as u64;
    let rate = limit.rate as int;
    let per_sec = rate * 1_000_000_000;
    let need = limit.unit() - t;
    assert(now.saturating_sub(b.last_refill) * limit.rate >= 0) by (nonlinear_arith);
    assert(c.units == t);
    assert(later - now == fewer * 1_000_000_000);
    assert((fewer * 1_000_000_000) * rate == fewer * per_sec) by (nonlinear_arith)
        requires
            per_sec == rate * 1_000_000_000,
    ;
    assert(fewer * per_sec < need) by {
        if rate == 0 || fewer == 0 {
            assert(fewer * per_sec == 0) by (nonlinear_arith)
                requires
                    per_sec == 0 || fewer == 0,
            ;
        } else {
            let k = ceil_div(need, per_sec);
            assert(fewer <= k - 1);
            assert((k - 1) * per_sec < need) by (nonlinear_arith)
                requires
                    per_sec > 0,
                    need > 0,
                    k == (if need % per_sec == 0 {
                        need / per_sec
                    } else {
                        need / per_sec + 1
                    }),
            ;
            assert(fewer * per_sec <= (k - 1) * per_sec) by (nonlinear_arith)
                requires
                    fewer <= k - 1,
                    per_sec > 0,
            ;
        }
    }
    assert(limit.refilled(c, later) <= t + fewer * per_sec);
}

/// Nobody can tell that an idle bucket was dropped: from then on the key gets the
/// same answers, and its bucket is left the same, as if it had been kept.
pub proof fn law_eviction_is_not_seen(
    limit: Limit,
    m: Map<Seq<char>, Bucket>,
    idle: u64,
    now: u64,
    k: Seq<char>,
    later: u64,
)
    requires
        limit.wf(),
        now <= later,
    ensures
        ({
            let was = limit.bucket_of(m, k, later);
            let now_is = limit.bucket_of(kept(m, limit, idle, now), k, later);
            &&& limit.verdict(now_is, later) == limit.verdict(was, later)
            &&& limit.probed(now_is, later) == limit.probed(was, later)
        }),
{
    lemma_full_fits(limit);
    let left = kept(m, limit, idle, now);
    if m.dom().contains(k) && !left.dom().contains(k) {
        let b = m[k];
        assert(!limit.keeps(b, idle, now));
        let e = now.saturating_sub(b.last_refill);
        let f = later.saturating_sub(b.last_refill);
        assert(f * limit.rate >= e * limit.rate) by (nonlinear_arith)
            requires
                f >= e,
        ;
        assert(limit.refilled(b, later) == limit.full());
        let fresh = Bucket { units: limit.full() as u128, last_refill: later };
        assert(later.saturating_sub(later) * limit.rate == 0) by (nonlinear_arith);
        assert(limit.refilled(fresh, later) == limit.full());
    } else if left.dom().contains(k) {
        assert(left[k] == m[k]);
    }
}

/// A request costs one token, which is `per_secs` billion units. A bucket gains `rate` units in
/// each nanosecond and holds no more than its burst. A request is allowed if and only if there
/// is a token for it, and takes it.
pub proof fn law_probe_by_units(limit: Limit, b: Bucket, now: u64)
    requires
        limit.wf(),
    ensures
        ({
            let most = (limit.burst * 1_000_000_000 + limit.burst_nanos) * limit.per_secs;
            let passed = if now > b.last_refill {
                now - b.last_refill
            } else {
                0
            };
            let grown = b.units + passed * limit.rate;
            let held = if grown <= most {
                grown
            } else {
                most
            };
            let price = limit.per_secs * 1_000_000_000;
            let left = limit.probed(b, now);
            &&& left.last_refill == now
            &&& held >= price ==> limit.verdict(b, now) is Allow && left.units == held - price
            &&& held < price ==> limit.verdict(b, now) is Deny && left.units == held
        }),
{
    lemma_full_fits(limit);
    lemma_most(limit);
    assert(0 <= now.saturating_sub(b.last_refill) * limit.rate) by (nonlinear_arith)
        requires
            now.saturating_sub(b.last_refill) >= 0,
            limit.rate >= 0,
    ;
}

/// The units that a bucket holds at most.
proof fn lemma_most(limit: Limit)
    ensures
        limit.full() == (limit.burst * 1_000_000_000 + limit.burst_nanos) * limit.per_secs,
{
    let b = limit.burst as int;
    let n = limit.burst_nanos as int;
    let p = limit.per_secs as int;
    assert(b * (p * 1_000_000_000) + n * p == (b * 1_000_000_000 + n) * p) by (nonlinear_arith);
}

/// A request that is denied is told the least number of whole seconds, one at least, after which
/// the missing part of a token will have come back; and the largest number where none will.
pub proof fn law_denied_is_told_when(limit: Limit, b: Bucket, now: u64, secs: u32)
    requires
        limit.wf(),
        limit.verdict(b, now) == (RateLimitOutcome::Deny { retry_after_secs: secs }),
    ensures
        ({
            let missing = limit.per_secs * 1_000_000_000 - limit.probed(b, now).units;
            &&& limit.rate == 0 ==> secs == 0xffff_ffff
            &&& limit.rate > 0 && secs < 0xffff_ffff ==> secs * (limit.rate * 1_000_000_000)
                >= missing
            &&& limit.rate > 0 && secs > 1 ==> (secs - 1) * (limit.rate * 1_000_000_000) < missing
            &&& secs >= 1
        }),
{
    lemma_full_fits(limit);
    assert(0 <= now.saturating_sub(b.last_refill) * limit.rate) by (nonlinear_arith)
        requires
            now.saturating_sub(b.last_refill) >= 0,
            limit.rate >= 0,
    ;
    let t = limit.refilled(b, now);
    let missing = limit.unit() - t;
    let step = limit.rate * 1_000_000_000;
    if limit.rate > 0 {
        let q = missing / step;
        vstd::arithmetic::div_mod::lemma_fundamental_div_mod(missing, step);
        assert(q * step + missing % step == missing) by (nonlinear_arith)
            requires
                missing == step * q + missing % step,
        ;
        let c = ceil_div(missing, step);
        assert((q + 1) * step == q * step + step) by (nonlinear_arith);
        assert((q - 1) * step == q * step - step) by (nonlinear_arith);
        assert(c * step >= missing);
        assert((c - 1) * step < missing);
        if secs > 1 && secs < c {
            assert((secs - 1) * step <= (c - 1) * step) by (nonlinear_arith)
                requires
                    secs < c,
                    step > 0,
            ;
        }
        assert(c >= 1) by (nonlinear_arith)
            requires
                c * step >= missing,
                missing > 0,
                step > 0,
        ;
    }
}

/// A key that was not met yet has all of its burst: its first request is allowed if and only if
/// that is one token at least.
pub proof fn law_first_request(limit: Limit, m: Map<Seq<char>, Bucket>, k: Seq<char>, now: u64)
    requires
        limit.wf(),
    ensures
        !m.dom().contains(k) ==> limit.bucket_of(m, k, now).last_refill == now
            && limit.bucket_of(m, k, now).units == (limit.burst * 1_000_000_000 + limit.burst_nanos)
            * limit.per_secs,
        m.dom().contains(k) ==> limit.bucket_of(m, k, now) == m[k],
        !m.dom().contains(k) ==> (limit.verdict(limit.bucket_of(m, k, now), now) is Allow <==> limit.burst
            * 1_000_000_000 + limit.burst_nanos >= 1_000_000_000),
{
    lemma_full_fits(limit);
    lemma_most(limit);
    let b = limit.burst * 1_000_000_000 + limit.burst_nanos;
    let p = limit.per_secs as int;
    assert(b * p >= p * 1_000_000_000 <==> b >= 1_000_000_000) by (nonlinear_arith)
        requires
            p > 0,
    ;
    assert(0 * limit.rate == 0);
}

/// What requests are counted by: the address of the client, the name of the user, or the text
/// of the first value of a header.
pub proof fn law_request_key(
    ctx: RequestContext,
    headers: Map<Seq<char>, Seq<Seq<u8>>>,
    name: String,
)
    ensures
        key_of(RateLimitKey::ClientIp, ctx, headers) == ctx.client_ip@,
        key_of(RateLimitKey::User, ctx, headers) == ctx.username@,
        first_text(headers, name@) is Some ==> key_of(RateLimitKey::Header(name), ctx, headers)
            == first_text(headers, name@)->0,
        first_text(headers, name@) is None ==> key_of(RateLimitKey::Header(name), ctx, headers).len()
            == 0,
{
}

/// A bucket is dropped if and only if it was not used for the idle time and has filled up.
pub proof fn law_eviction_by_units(
    m: Map<Seq<char>, Bucket>,
    limit: Limit,
    idle: u64,
    now: u64,
    k: Seq<char>,
)
    ensures
        ({
            let left = kept(m, limit, idle, now);
            let b = m[k];
            let most = (limit.burst * 1_000_000_000 + limit.burst_nanos) * limit.per_secs;
            let passed = if now > b.last_refill {
                now - b.last_refill
            } else {
                0
            };
            &&& left.dom().contains(k) <==> m.dom().contains(k) && (passed < idle || b.units + passed
                * limit.rate < most)
            &&& left.dom().contains(k) ==> left[k] == b
        }),
{
    lemma_most(limit);
}

/// The keys that are met are counted over all rules.
pub proof fn law_keys_are_counted(rules: Seq<RateLimitRule>, r: RateLimitRule)
    ensures
        active_keys(Seq::empty()) == 0,
        r.state@.dom().len() <= u64::MAX && active_keys(rules) + r.state@.dom().len() <= u64::MAX
            ==> active_keys(rules.push(r)) == active_keys(rules) + r.state@.dom().len(),
{
    assert(rules.push(r).drop_last() =~= rules);
}

} // verus!
