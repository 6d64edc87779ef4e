//! The limits that an allowed request meets.
use crate::headers::header_values;
use crate::listener::service::admission::{exceeds, too_long};
use crate::listener::service::policy::Allowed;
use crate::metrics::Metrics;
use crate::rate_limit::{key_of, Bucket, RateLimitOutcome, RateLimitRule, RequestContext};
use vstd::prelude::*;

verus! {

/// What a rule says of a request.
pub open spec fn rule_verdict(
    rule: RateLimitRule,
    ctx: RequestContext,
    h: Map<Seq<char>, Seq<Seq<u8>>>,
    now: u64,
) -> RateLimitOutcome {
    let k = key_of(rule.key, ctx, h);
    rule.limit.verdict(rule.limit.bucket_of(rule.state@, k, now), now)
}

/// The buckets of a rule after a request was put to it.
pub open spec fn rule_probed(
    rule: RateLimitRule,
    ctx: RequestContext,
    h: Map<Seq<char>, Seq<Seq<u8>>>,
    now: u64,
) -> Map<Seq<char>, Bucket> {
    let k = key_of(rule.key, ctx, h);
    rule.state@.insert(k, rule.limit.probed(rule.limit.bucket_of(rule.state@, k, now), now))
}

/// The first rule from `i` on that denies a request, or their number.
pub open spec fn first_denial(
    rules: Seq<RateLimitRule>,
    ctx: RequestContext,
    h: Map<Seq<char>, Seq<Seq<u8>>>,
    now: u64,
    i: int,
) -> int
    decreases rules.len() - i,
{
    if i < 0 || i >= rules.len() {
        rules.len() as int
    } else if rule_verdict(rules[i], ctx, h, now) is Deny {
        i
    } else {
        first_denial(rules, ctx, h, now, i + 1)
    }
}

/// The same rule, with buckets of its own.
pub open spec fn same_rule(a: RateLimitRule, b: RateLimitRule) -> bool {
    b == (RateLimitRule { state: b.state, ..a })
}

/// A request that no limit stops.
pub struct Cleared {
    seal: (),
}

/// Why a limit stops a request.
pub enum Stopped {
    TooLong,
    /// A rule denies it, for so many seconds.
    Limited(String, u32),
}

/// What stopping a request adds to the counters.
pub open spec fn limit_counted(m: Metrics, limited: bool) -> Metrics {
    if limited {
        Metrics { rate_limit_triggers: m.rate_limit_triggers.wrapping_add(1), ..m }
    } else {
        m
    }
}

/// What putting a request to the rules in order does: rules up to the first that
/// denies it have one token less or say no, and those behind it are not asked.
pub open spec fn rules_asked(
    before: Seq<RateLimitRule>,
    after: Seq<RateLimitRule>,
    ctx: RequestContext,
    h: Map<Seq<char>, Seq<Seq<u8>>>,
    now: u64,
) -> bool {
    let d = first_denial(before, ctx, h, now, 0);
    &&& after.len() == before.len()
    &&& forall|j: int|
        0 <= j < before.len() && j <= d ==> same_rule(before[j], #[trigger] after[j])
            && after[j].state@ == rule_probed(before[j], ctx, h, now)
    &&& forall|j: int| d < j < before.len() ==> #[trigger] after[j] == before[j]
}

/// Puts a request to the rules in order, until one denies it: its name, and the
/// seconds to wait.
pub fn check_rules(
    rules: &mut Vec<RateLimitRule>,
    ctx: &RequestContext,
    headers: &hyper::HeaderMap,
    now: u64,
) -> (r: Option<(String, u32)>)
    requires
        forall|i: int| 0 <= i < old(rules)@.len() ==> (#[trigger] old(rules)@[i]).limit.wf(),
    ensures
        rules_asked(old(rules)@, final(rules)@, *ctx, header_values(*headers), now),
        ({
            let d = first_denial(old(rules)@, *ctx, header_values(*headers), now, 0);
            match r {
                Some((name, secs)) => 0 <= d < old(rules)@.len() && name@ == old(rules)@[d].name@
                    && rule_verdict(old(rules)@[d], *ctx, header_values(*headers), now)
                    == RateLimitOutcome::Deny { retry_after_secs: secs },
                None => d == old(rules)@.len(),
            }
        }),
{
    let ghost r0 = rules@;
    let ghost h = header_values(*headers);
    let n: usize = rules.len();
    let mut i: usize = 0;
    while i < n
        invariant
            n == r0.len(),
            r0 == old(rules)@,
            rules@.len() == n,
            i <= n,
            h == header_values(*headers),
            forall|j: int| 0 <= j < n ==> (#[trigger] r0[j]).limit.wf(),
            first_denial(r0, *ctx, h, now, 0) == first_denial(r0, *ctx, h, now, i as int),
            forall|j: int|
                0 <= j < i ==> same_rule(r0[j], #[trigger] rules@[j]) && rules@[j].state@
                    == rule_probed(r0[j], *ctx, h, now),
            forall|j: int| i <= j < n ==> #[trigger] rules@[j] == r0[j],
        decreases n - i,
    {
        assert(rules@[i as int] == r0[i as int]);
        let out = rules[i].check_at(ctx, headers, now);
        match out {
            RateLimitOutcome::Deny { retry_after_secs } => {
                let name = rules[i].name.clone();
                return Some((name, retry_after_secs));
            },
            RateLimitOutcome::Allow => {},
        }
        i = i + 1;
    }
    None
}

/// Puts an allowed request to the limits of its place: the length that it
/// announces first, then the rules.
pub fn clear(
    allowed: Allowed,
    max: Option<u64>,
    rules: &mut Vec<RateLimitRule>,
    ctx: &RequestContext,
    headers: &hyper::HeaderMap,
    now: u64,
    metrics: &mut Metrics,
) -> (r: Result<Cleared, Stopped>)
    requires
        forall|i: int| 0 <= i < old(rules)@.len() ==> (#[trigger] old(rules)@[i]).limit.wf(),
    ensures
        r matches Err(Stopped::TooLong) <==> too_long(header_values(*headers), max),
        too_long(header_values(*headers), max) ==> final(rules)@ == old(rules)@,
        !too_long(header_values(*headers), max) ==> ({
            let d = first_denial(old(rules)@, *ctx, header_values(*headers), now, 0);
            &&& rules_asked(old(rules)@, final(rules)@, *ctx, header_values(*headers), now)
            &&& r is Ok <==> d == old(rules)@.len()
            &&& r matches Err(Stopped::Limited(name, secs)) ==> 0 <= d < old(rules)@.len() && name@
                == old(rules)@[d].name@ && rule_verdict(
                old(rules)@[d],
                *ctx,
                header_values(*headers),
                now,
            ) == RateLimitOutcome::Deny { retry_after_secs: secs }
        }),
        *final(metrics) == limit_counted(*old(metrics), r matches Err(Stopped::Limited(_, _))),
{
    if exceeds(headers, max) {
        return Err(Stopped::TooLong);
    }
    match check_rules(rules, ctx, headers, now) {
        Some((name, secs)) => {
            metrics.rate_limit_triggers = metrics.rate_limit_triggers.wrapping_add(1);
            Err(Stopped::Limited(name, secs))
        },
        None => Ok(Cleared { seal: () }),
    }
}

} // verus!
