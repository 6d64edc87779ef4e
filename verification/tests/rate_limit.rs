use arc_swap::ArcSwap;
use hyper::header::{HeaderMap, HeaderName, HeaderValue};
use hypershunt::rate_limit::{
    sweep, Limit, RateLimitKey, RateLimitOutcome, RateLimitRule, RequestContext, IDLE_THRESHOLD,
    NANOS,
};
use std::sync::Arc;

/// Any moment will do.
const T0: u64 = 5_000_000_000_000;

fn secs(n: u64) -> u64 {
    n * NANOS
}

fn rule(rate: u64, burst: u32, key: RateLimitKey) -> RateLimitRule {
    RateLimitRule::new("t".into(), Limit { rate, per_secs: 1, burst, burst_nanos: 0 }, key)
}

fn ctx_for_ip(ip: &str) -> RequestContext<'_> {
    RequestContext {
        client_ip: ip,
        username: "",
        groups: "",
        method: "GET",
        path: "/",
        query: "",
        path_and_query: "/",
        host: "h",
        scheme: "http",
        client_cert_subject: "",
        client_cert_sans: "",
    }
}

#[test]
fn ruleset_arcswap_publishes_new_vec() {
    let old_rule = Arc::new(rule(1, 1, RateLimitKey::ClientIp));
    let rules = Arc::new(ArcSwap::from_pointee(vec![old_rule.clone()]));
    let snapshot_before = rules.load_full();

    // Reload-style swap: publish a brand-new (empty) set.
    rules.store(Arc::new(Vec::new()));

    let snapshot_after = rules.load_full();
    assert_eq!(snapshot_before.len(), 1);
    assert_eq!(snapshot_after.len(), 0);
    assert!(!Arc::ptr_eq(&snapshot_before, &snapshot_after));
}

#[test]
fn tokens_refill_over_time() {
    let mut r = rule(2, 2, RateLimitKey::ClientIp);
    let h = HeaderMap::new();
    let ctx = ctx_for_ip("1.2.3.4");
    // Drain the burst.
    assert_eq!(r.check_at(&ctx, &h, T0), RateLimitOutcome::Allow);
    assert_eq!(r.check_at(&ctx, &h, T0), RateLimitOutcome::Allow);
    // Bucket empty -> Deny.
    assert!(matches!(r.check_at(&ctx, &h, T0), RateLimitOutcome::Deny { .. }));
    // 1s later: 2 tokens refilled.
    let t1 = T0 + secs(1);
    assert_eq!(r.check_at(&ctx, &h, t1), RateLimitOutcome::Allow);
    assert_eq!(r.check_at(&ctx, &h, t1), RateLimitOutcome::Allow);
}

#[test]
fn different_keys_have_separate_buckets() {
    let mut r = rule(1, 1, RateLimitKey::ClientIp);
    let h = HeaderMap::new();
    assert_eq!(r.check_at(&ctx_for_ip("1.2.3.4"), &h, T0), RateLimitOutcome::Allow);
    // Same instant, different IP: still Allow because it's a
    // different bucket.
    assert_eq!(r.check_at(&ctx_for_ip("5.6.7.8"), &h, T0), RateLimitOutcome::Allow);
    // Re-hit the first IP: now empty.
    assert!(matches!(
        r.check_at(&ctx_for_ip("1.2.3.4"), &h, T0),
        RateLimitOutcome::Deny { .. }
    ));
}

#[test]
fn header_key_falls_back_to_empty() {
    let mut r = rule(1, 1, RateLimitKey::Header("x-api-key".to_string()));
    let mut h_a = HeaderMap::new();
    h_a.insert(HeaderName::from_static("x-api-key"), HeaderValue::from_static("alpha"));
    let mut h_b = HeaderMap::new();
    h_b.insert(HeaderName::from_static("x-api-key"), HeaderValue::from_static("bravo"));
    let h_none = HeaderMap::new();
    let ctx = ctx_for_ip("1.2.3.4");
    // Distinct headers -> separate buckets.
    assert_eq!(r.check_at(&ctx, &h_a, T0), RateLimitOutcome::Allow);
    assert_eq!(r.check_at(&ctx, &h_b, T0), RateLimitOutcome::Allow);
    // Two requests with NO header share one "" bucket.
    assert_eq!(r.check_at(&ctx, &h_none, T0), RateLimitOutcome::Allow);
    assert!(matches!(r.check_at(&ctx, &h_none, T0), RateLimitOutcome::Deny { .. }));
}

#[test]
fn retry_after_is_at_least_one_second() {
    // rate=10/s, burst=1: drained in one request; the bucket
    // refills 10/s so it'd be back in 0.1s mathematically.
    // Retry-After must still round to >=1.
    let mut r = rule(10, 1, RateLimitKey::ClientIp);
    let h = HeaderMap::new();
    let ctx = ctx_for_ip("1.2.3.4");
    let _ = r.check_at(&ctx, &h, T0);
    match r.check_at(&ctx, &h, T0) {
        RateLimitOutcome::Deny { retry_after_secs } => {
            assert!(retry_after_secs >= 1);
        }
        o => panic!("expected Deny, got {o:?}"),
    }
}

#[test]
fn refill_caps_at_burst() {
    let mut r = rule(1000, 2, RateLimitKey::ClientIp);
    let h = HeaderMap::new();
    let ctx = ctx_for_ip("1.2.3.4");
    // Drain.
    let _ = r.check_at(&ctx, &h, T0);
    let _ = r.check_at(&ctx, &h, T0);
    let t1 = T0 + secs(10);
    // Two requests at t1 should both Allow; a third must Deny
    // because the cap is 2 even with 10s of accumulation.
    assert_eq!(r.check_at(&ctx, &h, t1), RateLimitOutcome::Allow);
    assert_eq!(r.check_at(&ctx, &h, t1), RateLimitOutcome::Allow);
    assert!(matches!(r.check_at(&ctx, &h, t1), RateLimitOutcome::Deny { .. }));
}

#[test]
fn user_key_uses_authenticated_username() {
    let mut r = rule(1, 1, RateLimitKey::User);
    let h = HeaderMap::new();
    let mut alice = ctx_for_ip("1.2.3.4");
    alice.username = "alice";
    let mut bob = ctx_for_ip("1.2.3.4");
    bob.username = "bob";
    // Same IP, different users -- distinct buckets.
    assert_eq!(r.check_at(&alice, &h, T0), RateLimitOutcome::Allow);
    assert_eq!(r.check_at(&bob, &h, T0), RateLimitOutcome::Allow);
    // Re-hit alice: now bucketed and drained.
    assert!(matches!(r.check_at(&alice, &h, T0), RateLimitOutcome::Deny { .. }));
}

#[test]
fn evict_idle_keeps_recently_used_full_buckets() {
    let mut r = rule(1, 2, RateLimitKey::ClientIp);
    let h = HeaderMap::new();
    // Hit "a" once: bucket created, tokens=1 (not full).
    let _ = r.check_at(&ctx_for_ip("a"), &h, T0);
    assert_eq!(r.bucket_count(), 1);
    // 11 minutes later: bucket has refilled past `burst`
    // (capped at 2) so it's fully-refilled AND idle long
    // enough.  Evict drops it.
    let t1 = T0 + secs(11 * 60);
    let removed = r.evict_idle_at(secs(10 * 60), t1);
    assert_eq!(removed, 1);
    assert_eq!(r.bucket_count(), 0);
}

#[test]
fn evict_idle_keeps_recently_touched_buckets() {
    let mut r = rule(1, 2, RateLimitKey::ClientIp);
    let h = HeaderMap::new();
    let _ = r.check_at(&ctx_for_ip("a"), &h, T0);
    // Two minutes later: well under the 10-min idle threshold.
    let t1 = T0 + secs(2 * 60);
    let removed = r.evict_idle_at(secs(10 * 60), t1);
    assert_eq!(removed, 0);
    assert_eq!(r.bucket_count(), 1);
}

#[test]
fn retry_after_is_when_the_next_token_comes() {
    // One token per 7 seconds.
    let limit = Limit { rate: 1, per_secs: 7, burst: 1, burst_nanos: 0 };
    let mut r = RateLimitRule::new("t".into(), limit, RateLimitKey::ClientIp);
    let h = HeaderMap::new();
    let ctx = ctx_for_ip("1.2.3.4");
    assert_eq!(r.check_at(&ctx, &h, T0), RateLimitOutcome::Allow);
    assert_eq!(
        r.check_at(&ctx, &h, T0 + secs(2)),
        RateLimitOutcome::Deny { retry_after_secs: 5 }
    );
    assert_eq!(
        r.check_at(&ctx, &h, T0 + secs(6)),
        RateLimitOutcome::Deny { retry_after_secs: 1 }
    );
    assert_eq!(r.check_at(&ctx, &h, T0 + secs(7)), RateLimitOutcome::Allow);
}

#[test]
fn allowed_requests_are_bounded() {
    let mut r = rule(3, 4, RateLimitKey::ClientIp);
    let h = HeaderMap::new();
    let ctx = ctx_for_ip("1.2.3.4");
    let mut allowed = 0;
    for i in 0..1000 {
        if r.check_at(&ctx, &h, T0 + i * NANOS / 100) == RateLimitOutcome::Allow {
            allowed += 1;
        }
    }
    // 4 at once and 3 in each of not quite ten seconds.
    assert!(allowed <= 4 + 30);
    assert!(allowed >= 4 + 29);
}

#[test]
fn zero_rate_never_refills() {
    let mut r = rule(0, 1, RateLimitKey::ClientIp);
    let h = HeaderMap::new();
    let ctx = ctx_for_ip("1.2.3.4");
    assert_eq!(r.check_at(&ctx, &h, T0), RateLimitOutcome::Allow);
    assert_eq!(
        r.check_at(&ctx, &h, T0 + secs(9999)),
        RateLimitOutcome::Deny { retry_after_secs: u32::MAX }
    );
}

#[test]
fn keys_are_derived_from_the_request() {
    let h = HeaderMap::new();
    let mut ctx = ctx_for_ip("1.2.3.4");
    ctx.username = "alice";
    assert_eq!(rule(1, 1, RateLimitKey::ClientIp).key_string(&ctx, &h), "1.2.3.4");
    assert_eq!(rule(1, 1, RateLimitKey::User).key_string(&ctx, &h), "alice");
}

#[test]
fn sweep_counts_the_buckets_that_stay() {
    let mut rules = vec![rule(1, 2, RateLimitKey::ClientIp), rule(1, 2, RateLimitKey::User)];
    let h = HeaderMap::new();
    let _ = rules[0].check_at(&ctx_for_ip("a"), &h, T0);
    let _ = rules[1].check_at(&ctx_for_ip("a"), &h, T0 + IDLE_THRESHOLD);
    assert_eq!(sweep(&mut rules, T0 + IDLE_THRESHOLD + 1), 1);
    assert_eq!(rules[0].bucket_count(), 0);
    assert_eq!(rules[1].bucket_count(), 1);
}

fn wait(r: &mut RateLimitRule, at: u64) -> Option<u32> {
    match r.check_key("k".into(), at) {
        RateLimitOutcome::Allow => None,
        RateLimitOutcome::Deny { retry_after_secs } => Some(retry_after_secs),
    }
}

#[test]
fn told_wait_is_the_least() {
    let mut r = RateLimitRule::new(
        "t".into(),
        Limit { rate: 1, per_secs: 10, burst: 1, burst_nanos: 0 },
        RateLimitKey::ClientIp,
    );
    assert_eq!(wait(&mut r, T0), None);
    assert_eq!(wait(&mut r, T0), Some(10));
    for n in 1..10 {
        assert_eq!(wait(&mut r, T0 + secs(n)), Some(10 - n as u32));
    }
    assert_eq!(wait(&mut r, T0 + secs(10)), None);
}

#[test]
fn every_window_is_bounded() {
    // Two a second with a burst of three: in no second do more than five pass.
    let mut r = rule(2, 3, RateLimitKey::ClientIp);
    let tenth = NANOS / 10;
    let passed: Vec<bool> = (0..60).map(|i| wait(&mut r, T0 + i * tenth).is_none()).collect();
    for from in 0..50 {
        let n = passed[from..from + 11].iter().filter(|p| **p).count();
        assert!(n <= 5, "{from}: {n}");
    }
    assert_eq!(passed.iter().filter(|p| **p).count(), 14);
}

#[test]
fn dropped_buckets_are_not_missed() {
    let mut kept = rule(1, 2, RateLimitKey::ClientIp);
    let mut swept = rule(1, 2, RateLimitKey::ClientIp);
    for r in [&mut kept, &mut swept] {
        assert_eq!(wait(r, T0), None);
        assert_eq!(wait(r, T0), None);
        assert_eq!(wait(r, T0), Some(1));
    }
    // Not full again: the bucket stays, however idle it is.
    assert_eq!(swept.evict_idle_at(0, T0 + secs(1)), 0);
    assert_eq!(swept.evict_idle_at(secs(2), T0 + secs(3)), 1);
    assert_eq!(swept.bucket_count(), 0);
    for at in [3, 3, 3, 4, 4] {
        assert_eq!(wait(&mut kept, T0 + secs(at)), wait(&mut swept, T0 + secs(at)));
    }
}

#[test]
fn burst_may_be_a_fraction() {
    let limit = Limit { rate: 1, per_secs: 2, burst: 1, burst_nanos: 500_000_000 };
    let mut r = RateLimitRule::new("t".into(), limit, RateLimitKey::ClientIp);
    assert_eq!(wait(&mut r, T0), None);
    // Half a token is left, and the other half takes a second.
    assert_eq!(wait(&mut r, T0), Some(1));
    assert_eq!(wait(&mut r, T0 + secs(1)), None);
    // Full again after three seconds, and no more than full.
    assert_eq!(wait(&mut r, T0 + secs(100)), None);
    assert_eq!(wait(&mut r, T0 + secs(100)), Some(1));
    let tight = Limit { rate: 1, per_secs: 1, burst: 0, burst_nanos: 999_999_999 };
    let mut r = RateLimitRule::new("t".into(), tight, RateLimitKey::ClientIp);
    assert_eq!(wait(&mut r, T0), Some(1));
    assert_eq!(wait(&mut r, T0 + secs(9)), Some(1));
}
