//! What the counters, the archives and the charts hold, in terms of what was counted.
use crate::decimal::{decimal, read_unsigned};
use crate::metrics::archive::{
    consolidated, lemma_total_bounds, ring_next, ring_recent, sampled, total, Ring, Series, Slot,
};
use crate::metrics::counters::{
    bucket_of, ClassCounters, ClassSnapshot, HandlerKind, HANDLER_KIND_ALL,
};
use crate::metrics::history::{absorbed, lists_of, CoarseArchive};
use crate::metrics::paths::{
    ahead, clipped, is_top, is_top_of, ranks_first, tally, with_hit, with_pairs, PathHits,
};
use crate::metrics::period::{ArchiveKind, TimePeriod};
use crate::metrics::procfs::{cpu_ticks_in, memory_kb_in, rss_line};
use crate::metrics::query::capped;
use crate::metrics::snapshot::{
    uptime_text, StreamSnap, CompressionSnap, TlsSnap, GeoipSnap, ShutdownSnap, AcmeSnap, OcspSnap,
    LbSnap, RateLimitSnap, CacheSnap, DatagramSnap, HttpConnSnap, BackendSnap, CgiSnap, StaticSnap,
    OidcSnap, SparklineData,
};
use crate::metrics::tick::{ticks_spent, TickSample};
use crate::metrics::{
    class_recorded, kinds_listed, last_hour, recorded, vhosts_listed, Metrics,
};
use crate::strmap::{keys_distinct, lemma_pairs_map, pairs_map, pairs_of, StrMap};
use crate::text::{has_prefix, parts, words};
use vstd::arithmetic::div_mod::{
    lemma_div_pos_is_pos, lemma_mod_add_multiples_vanish, lemma_mod_self_0,
    lemma_mod_sub_multiples_vanish, lemma_small_mod,
};
use vstd::prelude::*;
use vstd::utf8::*;

verus! {

/// Everything begins at zero.
pub proof fn law_counters_begin_at_zero(m: Metrics)
    requires
        m.is_fresh(),
    ensures
        m.requests_total == 0,
        m.requests_active == 0,
        m.status_2xx == 0,
        m.status_3xx == 0,
        m.status_4xx == 0,
        m.status_5xx == 0,
        m.auth_failures == 0,
        m.jwt_failures == 0,
        m.jwt_expiries == 0,
        m.jwt_issued == 0,
        m.oidc_refreshes == 0,
        m.oidc_refresh_failures == 0,
        m.oidc_logouts == 0,
        m.oidc_discoveries == 0,
        m.oidc_discovery_failures == 0,
        m.oidc_userinfo_failures == 0,
        m.oidc_backchannel_logouts == 0,
        m.oidc_backchannel_failures == 0,
        m.oidc_bearer_validations == 0,
        m.oidc_bearer_failures == 0,
        m.oidc_revocations == 0,
        m.oidc_revocation_failures == 0,
        m.oidc_callback_iss_mismatches == 0,
        m.quic_handshakes_total == 0,
        m.quic_handshake_failures_total == 0,
        m.quic_connections_active == 0,
        m.quic_requests_total == 0,
        m.quic_outbound_handshakes_total == 0,
        m.proxy_lb_picks == 0,
        m.proxy_lb_no_upstream == 0,
        m.proxy_lb_retries == 0,
        m.proxy_lb_ejections == 0,
        m.proxy_lb_health_failures == 0,
        m.proxy_lb_health_recoveries == 0,
        m.rate_limit_triggers == 0,
        m.rate_limit_active_keys == 0,
        m.cache_hits == 0,
        m.cache_misses == 0,
        m.cache_stores == 0,
        m.cache_bypass == 0,
        m.cache_evictions == 0,
        m.cache_revalidations == 0,
        m.cache_entries == 0,
        m.cache_bytes == 0,
        m.ocsp_refreshes == 0,
        m.ocsp_refresh_failures == 0,
        m.datagram_flows_active == 0,
        m.datagrams_in_total == 0,
        m.datagrams_out_total == 0,
        m.bytes_in_total == 0,
        m.bytes_out_total == 0,
        m.datagrams_dropped_oversize_total == 0,
        m.datagram_flow_create_total == 0,
        m.datagram_flow_evict_total == 0,
        m.stream_conns_active == 0,
        m.stream_conns_total == 0,
        m.stream_bytes_in_total == 0,
        m.stream_bytes_out_total == 0,
        m.compress_responses_total == 0,
        m.compress_skipped_total == 0,
        m.compress_bytes_in_total == 0,
        m.compress_bytes_out_total == 0,
        m.compress_gzip_total == 0,
        m.compress_brotli_total == 0,
        m.compress_zstd_total == 0,
        m.tls_handshakes_total == 0,
        m.tls_handshake_failures_total == 0,
        m.tls_handshake_timeouts_total == 0,
        m.geoip_lookups_total == 0,
        m.geoip_lookup_misses_total == 0,
        m.shutdown_drained_total == 0,
        m.shutdown_abandoned_total == 0,
        m.acme_issuances_total == 0,
        m.acme_issuance_failures_total == 0,
        m.acme_renewals_total == 0,
        m.acme_renewal_failures_total == 0,
        m.proxy_lb_health_checks_total == 0,
        m.proxy_upstream_bytes_in_total == 0,
        m.proxy_upstream_bytes_out_total == 0,
        m.proxy_upstream_connect_errors_total == 0,
        m.http_conns_active == 0,
        m.http_conns_total == 0,
        m.fcgi_requests_total == 0,
        m.fcgi_errors_total == 0,
        m.fcgi_in_flight == 0,
        m.scgi_requests_total == 0,
        m.scgi_errors_total == 0,
        m.scgi_in_flight == 0,
        m.cgi_requests_total == 0,
        m.cgi_errors_total == 0,
        m.cgi_in_flight == 0,
        m.cgi_spawn_failures_total == 0,
        m.cgi_timeouts_total == 0,
        m.static_bytes_served_total == 0,
        m.static_not_modified_total == 0,
        m.static_range_total == 0,
        m.per_vhost@.dom() == Set::<Seq<char>>::empty(),
        m.paths.total@.dom() == Set::<Seq<char>>::empty(),
        m.paths.current@.dom() == Set::<Seq<char>>::empty(),
        m.fine.ring.written == 0 && m.minute.ring.written == 0,
        m.hourly.ring.written == 0 && m.daily.ring.written == 0,
        forall|i: int| 0 <= i < 6 ==> #[trigger] m.latency@[i] == 0,
        forall|i: int| 0 <= i < 6 ==> #[trigger] m.proxy_upstream_latency@[i] == 0,
        forall|i: int|
            0 <= i < 9 ==> (#[trigger] m.per_kind@[i]).total == 0 && m.per_kind@[i].s2xx == 0
                && m.per_kind@[i].s3xx == 0 && m.per_kind@[i].s4xx == 0 && m.per_kind@[i].s5xx == 0,
        m.fine.last.total == 0 && m.fine.last.auth == 0 && m.fine.last.jwt == 0,
        m.fine.last.jwt_expiry == 0 && m.fine.last.jwt_issued == 0,
        m.fine.last.s4xx == 0 && m.fine.last.s5xx == 0 && m.fine.last.cpu_ticks == 0,
{
}

/// An empty snapshot holds zeros.
pub proof fn law_empty_snapshots()
    ensures
        StreamSnap::zero().conns_active == 0 && StreamSnap::zero().conns_total == 0,
        StreamSnap::zero().bytes_in == 0 && StreamSnap::zero().bytes_out == 0,
        CompressionSnap::zero().responses == 0 && CompressionSnap::zero().skipped == 0,
        CompressionSnap::zero().bytes_in == 0 && CompressionSnap::zero().bytes_out == 0,
        CompressionSnap::zero().gzip == 0 && CompressionSnap::zero().brotli == 0,
        CompressionSnap::zero().zstd == 0,
        TlsSnap::zero().handshakes == 0 && TlsSnap::zero().failures == 0,
        TlsSnap::zero().timeouts == 0,
        GeoipSnap::zero().lookups == 0 && GeoipSnap::zero().misses == 0,
        ShutdownSnap::zero().drained == 0 && ShutdownSnap::zero().abandoned == 0,
        AcmeSnap::zero().issuances == 0 && AcmeSnap::zero().issuance_failures == 0,
        AcmeSnap::zero().renewals == 0 && AcmeSnap::zero().renewal_failures == 0,
        OcspSnap::zero().refreshes == 0 && OcspSnap::zero().refresh_failures == 0,
        LbSnap::zero().picks == 0 && LbSnap::zero().no_upstream == 0,
        LbSnap::zero().retries == 0 && LbSnap::zero().ejections == 0,
        LbSnap::zero().health_failures == 0 && LbSnap::zero().health_recoveries == 0,
        LbSnap::zero().health_checks == 0,
        RateLimitSnap::zero().triggers == 0 && RateLimitSnap::zero().active_keys == 0,
        CacheSnap::zero().hits == 0 && CacheSnap::zero().misses == 0,
        CacheSnap::zero().stores == 0 && CacheSnap::zero().bypass == 0,
        CacheSnap::zero().evictions == 0 && CacheSnap::zero().revalidations == 0,
        CacheSnap::zero().entries == 0 && CacheSnap::zero().bytes == 0,
        DatagramSnap::zero().flows_active == 0 && DatagramSnap::zero().datagrams_in == 0,
        DatagramSnap::zero().datagrams_out == 0 && DatagramSnap::zero().bytes_in == 0,
        DatagramSnap::zero().bytes_out == 0 && DatagramSnap::zero().flow_create == 0,
        DatagramSnap::zero().flow_evict == 0,
        HttpConnSnap::zero().active == 0 && HttpConnSnap::zero().total == 0,
        BackendSnap::zero().requests == 0 && BackendSnap::zero().errors == 0,
        BackendSnap::zero().in_flight == 0,
        CgiSnap::zero().requests == 0 && CgiSnap::zero().errors == 0,
        CgiSnap::zero().in_flight == 0 && CgiSnap::zero().spawn_failures == 0,
        CgiSnap::zero().timeouts == 0,
        StaticSnap::zero().bytes_served == 0 && StaticSnap::zero().not_modified == 0,
        StaticSnap::zero().range == 0,
        OidcSnap::zero().refreshes == 0 && OidcSnap::zero().refresh_failures == 0,
        OidcSnap::zero().logouts == 0 && OidcSnap::zero().discoveries == 0,
        OidcSnap::zero().discovery_failures == 0 && OidcSnap::zero().userinfo_failures == 0,
        OidcSnap::zero().backchannel_logouts == 0 && OidcSnap::zero().backchannel_failures == 0,
        OidcSnap::zero().bearer_validations == 0 && OidcSnap::zero().bearer_failures == 0,
        OidcSnap::zero().revocations == 0 && OidcSnap::zero().revocation_failures == 0,
        OidcSnap::zero().callback_iss_mismatches == 0,
{
}

/// A request is counted in all, in the class of its status, and in the first bucket whose bound
/// its time stays under: 1, 10, 50, 200 and 1000 milliseconds, and one bucket for all else.
pub proof fn law_request_is_counted(a: Metrics, b: Metrics, status: u16, ms: u128)
    requires
        recorded(a, b, status, ms),
    ensures
        b.requests_total == a.requests_total.wrapping_add(1),
        ({
            let class = status / 100;
            &&& b.status_2xx == if class == 2 {
                a.status_2xx.wrapping_add(1)
            } else {
                a.status_2xx
            }
            &&& b.status_3xx == if class == 3 {
                a.status_3xx.wrapping_add(1)
            } else {
                a.status_3xx
            }
            &&& b.status_4xx == if class == 4 {
                a.status_4xx.wrapping_add(1)
            } else {
                a.status_4xx
            }
            &&& b.status_5xx == if class == 5 {
                a.status_5xx.wrapping_add(1)
            } else {
                a.status_5xx
            }
        }),
        ({
            let at = |i: int|
                (i == 0 && ms < 1) || (i == 1 && 1 <= ms < 10) || (i == 2 && 10 <= ms < 50) || (i
                    == 3 && 50 <= ms < 200) || (i == 4 && 200 <= ms < 1000) || (i == 5 && 1000
                    <= ms);
            forall|i: int|
                0 <= i < 6 ==> #[trigger] b.latency@[i] == if at(i) {
                    a.latency@[i].wrapping_add(1)
                } else {
                    a.latency@[i]
                }
        }),
        b == (Metrics {
            requests_total: b.requests_total,
            status_2xx: b.status_2xx,
            status_3xx: b.status_3xx,
            status_4xx: b.status_4xx,
            status_5xx: b.status_5xx,
            latency: b.latency,
            ..a
        }),
{
}

/// The bucket of a time, which the times of upstreams go by too.
pub proof fn law_bucket_by_its_bounds(ms: int)
    ensures
        bucket_of(ms) == 0 <==> ms < 1,
        bucket_of(ms) == 1 <==> 1 <= ms < 10,
        bucket_of(ms) == 2 <==> 10 <= ms < 50,
        bucket_of(ms) == 3 <==> 50 <= ms < 200,
        bucket_of(ms) == 4 <==> 200 <= ms < 1000,
        bucket_of(ms) == 5 <==> 1000 <= ms,
{
}

/// A status is counted in all and in its class.
pub proof fn law_class_of_a_status(c: ClassCounters, status: u16)
    ensures
        ({
            let d = c.with(status);
            let class = status / 100;
            &&& d.total == c.total.wrapping_add(1)
            &&& d.s2xx == if class == 2 {
                c.s2xx.wrapping_add(1)
            } else {
                c.s2xx
            }
            &&& d.s3xx == if class == 3 {
                c.s3xx.wrapping_add(1)
            } else {
                c.s3xx
            }
            &&& d.s4xx == if class == 4 {
                c.s4xx.wrapping_add(1)
            } else {
                c.s4xx
            }
            &&& d.s5xx == if class == 5 {
                c.s5xx.wrapping_add(1)
            } else {
                c.s5xx
            }
            &&& c.values().total == c.total && c.values().s2xx == c.s2xx
            &&& c.values().s3xx == c.s3xx && c.values().s4xx == c.s4xx
            &&& c.values().s5xx == c.s5xx
        }),
        ClassCounters::zero().total == 0 && ClassCounters::zero().s2xx == 0,
        ClassCounters::zero().s3xx == 0 && ClassCounters::zero().s4xx == 0,
        ClassCounters::zero().s5xx == 0,
{
}

/// A request of a handler and a host is counted for both, from zero where the host is new, and
/// for no other.
pub proof fn law_request_of_a_class(
    a: Metrics,
    b: Metrics,
    kind: HandlerKind,
    vhost: Seq<char>,
    status: u16,
    i: int,
)
    requires
        class_recorded(a, b, kind, vhost, status),
        0 <= i < 9,
    ensures
        b.per_kind@[i] == if i == kind.place() {
            a.per_kind@[i].with(status)
        } else {
            a.per_kind@[i]
        },
        b.per_vhost@.dom() == a.per_vhost@.dom().insert(vhost),
        a.per_vhost@.dom().contains(vhost) ==> b.per_vhost@[vhost] == a.per_vhost@[vhost].with(
            status,
        ),
        !a.per_vhost@.dom().contains(vhost) ==> b.per_vhost@[vhost] == ClassCounters::zero().with(
            status,
        ),
        forall|v: Seq<char>|
            v != vhost && #[trigger] a.per_vhost@.dom().contains(v) ==> b.per_vhost@[v]
                == a.per_vhost@[v],
        b == (Metrics { per_kind: b.per_kind, per_vhost: b.per_vhost, ..a }),
{
    assert(b.per_vhost@.dom() =~= a.per_vhost@.dom().insert(vhost));
}

/// The kinds of handlers, in their order and by their names.
pub proof fn law_kinds_in_order(k: HandlerKind)
    ensures
        k is Static ==> k.place() == 0 && k.name() == "static"@,
        k is Proxy ==> k.place() == 1 && k.name() == "proxy"@,
        k is Redirect ==> k.place() == 2 && k.name() == "redirect"@,
        k is Respond ==> k.place() == 3 && k.name() == "respond"@,
        k is FastCgi ==> k.place() == 4 && k.name() == "fastcgi"@,
        k is Scgi ==> k.place() == 5 && k.name() == "scgi"@,
        k is Cgi ==> k.place() == 6 && k.name() == "cgi"@,
        k is Status ==> k.place() == 7 && k.name() == "status"@,
        k is AuthRequest ==> k.place() == 8 && k.name() == "auth-request"@,
        HANDLER_KIND_ALL@[k.place()] == k,
{
}

/// The breakdowns list the counters of every kind by its name, and those of every host that was
/// met.
pub proof fn law_breakdowns_list_the_counters(
    kinds: Seq<ClassCounters>,
    r: Seq<(&'static str, ClassSnapshot)>,
    k: HandlerKind,
    hosts: StrMap<ClassCounters>,
    v: Seq<(String, ClassSnapshot)>,
    i: int,
)
    requires
        kinds_listed(kinds, r),
        vhosts_listed(hosts, v),
        0 <= i < v.len(),
    ensures
        r.len() == 9,
        r[k.place()].0@ == k.name(),
        r[k.place()].1 == kinds[k.place()].values(),
        v.len() == hosts.pairs().len(),
        v[i].0@ == hosts.pairs()[i].0,
        v[i].1 == hosts.pairs()[i].1.values(),
{
    law_kinds_in_order(k);
    assert(r[k.place()].0@ == HANDLER_KIND_ALL@[k.place()].name());
}

/// The hits of a path grow by what a pair says, and those of all others stay. The hits of a
/// list of lists are those of all of them.
pub proof fn law_hits_add_up(
    m: Map<Seq<char>, u64>,
    p: Seq<PathHits>,
    k: Seq<char>,
    v: u64,
    other: Seq<char>,
    lists: Seq<Seq<PathHits>>,
)
    ensures
        ({
            let before = with_pairs(m, p);
            let after = with_pairs(m, p.push((k, v)));
            &&& with_pairs(m, Seq::empty()) == m
            &&& after.dom().contains(k)
            &&& before.dom().contains(k) ==> after[k] == before[k].wrapping_add(v)
            &&& !before.dom().contains(k) ==> after[k] == v
            &&& other != k ==> (after.dom().contains(other) <==> before.dom().contains(other))
            &&& other != k && before.dom().contains(other) ==> after[other] == before[other]
        }),
        tally(Seq::empty()) == Map::<Seq<char>, u64>::empty(),
        tally(lists.push(p)) == with_pairs(tally(lists), p),
{
    assert(p.push((k, v)).drop_last() =~= p);
    assert(lists.push(p).drop_last() =~= lists);
}

/// A hit adds one to its path. A path that is new is dropped where 200 are known.
pub proof fn law_hit_of_a_path(m: Map<Seq<char>, u64>, k: Seq<char>, other: Seq<char>)
    ensures
        ({
            let n = with_hit(m, k);
            &&& m.dom().contains(k) ==> n.dom() == m.dom() && n[k] == m[k].wrapping_add(1)
            &&& !m.dom().contains(k) && m.dom().len() < 200 ==> n.dom() == m.dom().insert(k) && n[k]
                == 1
            &&& !m.dom().contains(k) && m.dom().len() >= 200 ==> n == m
            &&& other != k && m.dom().contains(other) ==> n[other] == m[other]
        }),
{
    if m.dom().contains(k) {
        assert(with_hit(m, k).dom() =~= m.dom());
    }
}

/// A path of at most 128 bytes is kept whole, and the first 128 bytes of a longer one.
pub proof fn law_long_paths_are_cut(path: Seq<char>)
    ensures
        encode_utf8(path).len() <= 128 ==> clipped(path) == path,
        encode_utf8(path).len() > 128 ==> clipped(path) == decode_utf8(
            encode_utf8(path).subrange(0, 128),
        ),
{
}

/// The top of a list: as many as asked for, or all; each of them in the list, the most hits
/// first; and none that is left out has more hits than one that is in.
pub proof fn law_top_of_a_list(v: Seq<PathHits>, limit: nat, r: Seq<PathHits>)
    requires
        is_top(v, limit as int, r),
    ensures
        r.len() == if limit < v.len() {
            limit
        } else {
            v.len()
        },
        forall|i: int, j: int| 0 <= i < j < r.len() ==> (#[trigger] r[i]).1 >= (#[trigger] r[j]).1,
        forall|i: int| 0 <= i < r.len() ==> v.contains(#[trigger] r[i]),
        forall|k: int, i: int|
            #![trigger v[k], r[i]]
            0 <= k < v.len() && 0 <= i < r.len() && !r.contains(v[k]) ==> v[k].1 <= r[i].1,
{
    let pick = choose|pick: Seq<int>| #[trigger]
        ranks_first(v, pick) && pick.len() == (if limit < v.len() {
            limit as int
        } else {
            v.len() as int
        }) && r == Seq::new(pick.len(), |i: int| v[pick[i]]);
    assert forall|i: int, j: int| 0 <= i < j < r.len() implies (#[trigger] r[i]).1 >= (
    #[trigger] r[j]).1 by {
        assert(ahead(v, pick[i], pick[j]));
    }
    assert forall|i: int| 0 <= i < r.len() implies v.contains(#[trigger] r[i]) by {
        assert(r[i] == v[pick[i]]);
    }
    assert forall|k: int, i: int|
        #![trigger v[k], r[i]]
        0 <= k < v.len() && 0 <= i < r.len() && !r.contains(v[k]) implies v[k].1 <= r[i].1 by {
        if pick.contains(k) {
            let j = choose|j: int| 0 <= j < pick.len() && pick[j] == k;
            assert(r[j] == v[k]);
        }
        assert(ahead(v, pick[i], k));
    }
}

/// Paths with as many hits stand in the order in which they were met.
pub proof fn law_top_keeps_the_order(v: Seq<PathHits>, a: int, b: int)
    requires
        0 <= a < v.len(),
        0 <= b < v.len(),
    ensures
        ahead(v, a, b) <==> v[a].1 > v[b].1 || v[a].1 == v[b].1 && a < b,
{
}

/// The top of the hits of a map: of its pairs, in some order.
pub proof fn law_top_of_a_map(m: Map<Seq<char>, u64>, limit: nat, r: Seq<PathHits>, i: int)
    requires
        is_top_of(m, limit as int, r),
        0 <= i < r.len(),
    ensures
        m.dom().contains(r[i].0),
        m[r[i].0] == r[i].1,
        r.len() <= limit,
        limit <= m.dom().len() ==> r.len() == limit,
        m.dom().len() <= limit ==> r.len() == m.dom().len(),
        forall|j: int, k: int|
            0 <= j < k < r.len() ==> (#[trigger] r[j]).1 >= (#[trigger] r[k]).1,
        forall|p: Seq<char>|
            #[trigger] m.dom().contains(p) && !r.contains((p, m[p])) ==> m[p] <= r[i].1,
{
    let v = choose|v: Seq<PathHits>|
        keys_distinct(v) && pairs_map(v) == m && #[trigger] is_top(
            v,
            limit as int,
            r,
        );
    lemma_pairs_map(v);
    law_top_of_a_list(v, limit, r);
    assert(v.contains(r[i]));
    let k = choose|k: int| 0 <= k < v.len() && v[k] == r[i];
    assert(m.dom().contains(v[k].0));
    assert forall|p: Seq<char>|
        #[trigger] m.dom().contains(p) && !r.contains((p, m[p])) implies m[p] <= r[i].1 by {
        let j = choose|j: int| 0 <= j < v.len() && v[j].0 == p;
        assert(v[j] == (p, m[p]));
    }
}

/// A slot of a ring goes behind the last, and the first behind the end: the latest slots are
/// those in front of the head, in order.
pub proof fn law_ring_goes_round<T>(slots: Seq<T>, head: int, n: int, i: int)
    requires
        0 <= head < slots.len(),
        0 <= i < n <= slots.len(),
    ensures
        ring_recent(slots, head, n).len() == n,
        ring_recent(slots, head, n)[i] == slots[(head + slots.len() - n + i) % (slots.len() as int)],
        ring_next(head, slots.len() as int) == (head + 1) % (slots.len() as int),
{
    let cap = slots.len() as int;
    let x = head + cap - n + i;
    if x < cap {
        lemma_small_mod(x as nat, cap as nat);
    } else {
        lemma_mod_sub_multiples_vanish(x, cap);
        lemma_small_mod((x - cap) as nat, cap as nat);
        assert(x - cap == head - n + i);
        lemma_mod_add_multiples_vanish(x - cap, cap);
    }
    if head + 1 < cap {
        lemma_small_mod((head + 1) as nat, cap as nat);
    } else {
        lemma_mod_self_0(cap);
    }
}

/// The number of each series in a slot.
pub proof fn law_series_of_a_slot(s: Slot)
    ensures
        s.of(Series::Req) == s.req && s.of(Series::Mem) == s.mem && s.of(Series::Cpu) == s.cpu,
        s.of(Series::Auth) == s.auth && s.of(Series::Jwt) == s.jwt,
        s.of(Series::JwtExpiry) == s.jwt_expiry && s.of(Series::JwtIssued) == s.jwt_issued,
        s.of(Series::Err4xx) == s.err4xx && s.of(Series::Err5xx) == s.err5xx,
        s.of(Series::Active) == s.active,
        ({
            let z = Slot::zero();
            z.req == 0 && z.mem == 0 && z.cpu == 0 && z.auth == 0 && z.jwt == 0 && z.jwt_expiry == 0
                && z.jwt_issued == 0 && z.err4xx == 0 && z.err5xx == 0 && z.active == 0
        }),
{
}

/// A series adds up over slots. Of those with a memory sample, one behind the others counts if
/// it has one.
pub proof fn law_slots_add_up(s: Seq<Slot>, x: Slot, f: Series)
    ensures
        total(Seq::empty(), f) == 0,
        total(s.push(x), f) == total(s, f) + x.of(f),
        sampled(Seq::empty()).len() == 0,
        x.mem == 0 ==> sampled(s.push(x)) == sampled(s),
        x.mem > 0 ==> sampled(s.push(x)) == sampled(s).push(x),
{
    assert(s.push(x).drop_last() =~= s);
}

/// A coarser slot holds the sums of its run, what fits, the mean of the requests in flight, and
/// the means of memory and processor time over the slots where memory was sampled.
pub proof fn law_coarser_slot(s: Seq<Slot>)
    requires
        s.len() > 0,
    ensures
        ({
            let c = consolidated(s);
            let n = sampled(s).len() as int;
            &&& c.req == total(s, Series::Req) % 0x1_0000_0000
            &&& c.auth == total(s, Series::Auth) % 0x1_0000
            &&& c.jwt == total(s, Series::Jwt) % 0x1_0000
            &&& c.jwt_expiry == total(s, Series::JwtExpiry) % 0x1_0000
            &&& c.jwt_issued == total(s, Series::JwtIssued) % 0x1_0000
            &&& c.err4xx == total(s, Series::Err4xx) % 0x1_0000
            &&& c.err5xx == total(s, Series::Err5xx) % 0x1_0000
            &&& c.active == total(s, Series::Active) / (s.len() as int)
            &&& n == 0 ==> c.mem == 0 && c.cpu == 0
            &&& n > 0 ==> c.mem == total(sampled(s), Series::Mem) / n && c.cpu == total(
                sampled(s),
                Series::Cpu,
            ) / n
        }),
{
    lemma_mean_fits(s, Series::Active);
    if sampled(s).len() > 0 {
        lemma_mean_fits(sampled(s), Series::Mem);
        lemma_mean_fits(sampled(s), Series::Cpu);
    }
    lemma_total_bounds(s, Series::Req);
    lemma_total_bounds(s, Series::Auth);
    lemma_total_bounds(s, Series::Jwt);
    lemma_total_bounds(s, Series::JwtExpiry);
    lemma_total_bounds(s, Series::JwtIssued);
    lemma_total_bounds(s, Series::Err4xx);
    lemma_total_bounds(s, Series::Err5xx);
}

/// A mean is no more than the most that a slot holds.
proof fn lemma_mean_fits(s: Seq<Slot>, f: Series)
    requires
        s.len() > 0,
    ensures
        0 <= total(s, f) / (s.len() as int) <= 0xffff_ffff,
        f != Series::Req && f != Series::Mem ==> total(s, f) / (s.len() as int) <= 0xffff,
{
    lemma_total_bounds(s, f);
    let n = s.len() as int;
    let t = total(s, f);
    lemma_div_pos_is_pos(t, n);
    assert(t / n <= 0xffff_ffff) by (nonlinear_arith)
        requires
            n > 0,
            0 <= t <= n * 0xffff_ffff,
    ;
    if f != Series::Req && f != Series::Mem {
        assert(t / n <= 0xffff) by (nonlinear_arith)
            requires
                n > 0,
                0 <= t <= n * 0xffff,
        ;
    }
}

/// An archive takes the coarser slot and its twenty paths with the most hits in at its head.
pub proof fn law_archive_takes_a_slot(
    a: CoarseArchive,
    b: CoarseArchive,
    run: Seq<Slot>,
    hits: Map<Seq<char>, u64>,
    i: int,
)
    requires
        a.wf(),
        absorbed(a, b, run, hits),
        0 <= i < a.cap(),
    ensures
        b.cap() == a.cap(),
        b.ring.slots@[a.ring.head as int] == consolidated(run),
        i != a.ring.head ==> b.ring.slots@[i] == a.ring.slots@[i],
        i != a.ring.head ==> pairs_of(b.paths@[i]@) == pairs_of(a.paths@[i]@),
        is_top_of(hits, 20, pairs_of(b.paths@[a.ring.head as int]@)),
        b.ring.head == if a.ring.head + 1 < a.cap() {
            a.ring.head + 1
        } else {
            0
        },
        b.ring.written == a.ring.written.wrapping_add(1),
{
    assert(lists_of(b.paths@)[i] == pairs_of(b.paths@[i]@));
    assert(lists_of(a.paths@)[i] == pairs_of(a.paths@[i]@));
}

/// The archives hold an hour of slots of five seconds, a day of minutes, thirty days of hours
/// and a year of days.
pub proof fn law_sizes_of_the_archives(m: Metrics)
    requires
        m.wf(),
    ensures
        m.fine.ring.cap() * 5 == 3600,
        m.minute.ring.cap() * 60 == 86400,
        m.hourly.ring.cap() * 3600 == 30 * 86400,
        m.daily.ring.cap() == 365,
        m.paths.slots@.len() * 5 == 3600,
        ArchiveKind::Fine.step() == 5 && ArchiveKind::Fine.slots() == m.fine.ring.cap(),
        ArchiveKind::Minute.step() == 60 && ArchiveKind::Minute.slots() == m.minute.ring.cap(),
        ArchiveKind::Hourly.step() == 3600 && ArchiveKind::Hourly.slots() == m.hourly.ring.cap(),
        ArchiveKind::Daily.step() == 86400 && ArchiveKind::Daily.slots() == m.daily.ring.cap(),
{
}

/// A slot that is closed holds what was counted since the last one: requests modulo 2^32, and
/// everything else up to 65535. It holds the requests in flight, none where they are fewer.
pub proof fn law_closed_slot(m: Metrics, t: TickSample)
    ensures
        ({
            let c = m.tick_slot(t);
            let last = m.fine.last;
            let grown = |now: u64, then: u64| if now > then {
                now - then
            } else {
                0
            };
            let fits = |n: int| if n % 0x1_0000_0000 < 0xffff {
                n % 0x1_0000_0000
            } else {
                0xffff
            };
            &&& c.req == grown(m.requests_total, last.total) % 0x1_0000_0000
            &&& c.mem == t.mem_kb as int % 0x1_0000_0000
            &&& c.cpu == t.cpu_hp
            &&& c.auth == fits(grown(m.auth_failures, last.auth))
            &&& c.jwt == fits(grown(m.jwt_failures, last.jwt))
            &&& c.jwt_expiry == fits(grown(m.jwt_expiries, last.jwt_expiry))
            &&& c.jwt_issued == fits(grown(m.jwt_issued, last.jwt_issued))
            &&& c.err4xx == fits(grown(m.status_4xx, last.s4xx))
            &&& c.err5xx == fits(grown(m.status_5xx, last.s5xx))
            &&& c.active == if m.requests_active < 0 {
                0
            } else if m.requests_active < 0xffff {
                m.requests_active as int
            } else {
                0xffff
            }
        }),
        ({
            let n = m.tick_baseline(t);
            &&& n.total == m.requests_total && n.auth == m.auth_failures && n.jwt == m.jwt_failures
            &&& n.jwt_expiry == m.jwt_expiries && n.jwt_issued == m.jwt_issued
            &&& n.s4xx == m.status_4xx && n.s5xx == m.status_5xx && n.cpu_ticks == t.cpu_ticks
        }),
{
}

/// The last hour of an archive of minutes is its last sixty slots, those that were written.
pub proof fn law_last_hour(ring: Ring)
    ensures
        ring.written >= 60 ==> last_hour(ring) == ring.recent(60),
        ring.written < 60 ==> last_hour(ring) == ring.recent(ring.written as int),
{
}

/// How long the periods are, and the archive that has slots enough for them. A name that is not
/// the period's own is one of these.
pub proof fn law_periods(s: Seq<char>)
    ensures
        TimePeriod::Min5.span_secs() == 5 * 60 && TimePeriod::Min5.backing() is Fine,
        TimePeriod::Min15.span_secs() == 15 * 60 && TimePeriod::Min15.backing() is Fine,
        TimePeriod::Min60.span_secs() == 60 * 60 && TimePeriod::Min60.backing() is Fine,
        TimePeriod::Hr3.span_secs() == 3 * 3600 && TimePeriod::Hr3.backing() is Minute,
        TimePeriod::Hr6.span_secs() == 6 * 3600 && TimePeriod::Hr6.backing() is Minute,
        TimePeriod::Hr12.span_secs() == 12 * 3600 && TimePeriod::Hr12.backing() is Minute,
        TimePeriod::Day1.span_secs() == 86400 && TimePeriod::Day1.backing() is Minute,
        TimePeriod::Day7.span_secs() == 7 * 86400 && TimePeriod::Day7.backing() is Hourly,
        TimePeriod::Day30.span_secs() == 30 * 86400 && TimePeriod::Day30.backing() is Hourly,
        TimePeriod::Month1.span_secs() == 30 * 86400 && TimePeriod::Month1.backing() is Hourly,
        TimePeriod::Month3.span_secs() == 90 * 86400 && TimePeriod::Month3.backing() is Daily,
        TimePeriod::Month6.span_secs() == 180 * 86400 && TimePeriod::Month6.backing() is Daily,
        TimePeriod::Month12.span_secs() == 365 * 86400 && TimePeriod::Month12.backing() is Daily,
        TimePeriod::named(s) is Some ==> s == TimePeriod::named(s)->0.token() || s == "5m"@ || s
            == "15m"@ || s == "60min"@ || s == "60m"@ || s == "12mo"@,
{
}

/// The names of the periods.
pub proof fn law_names_of_periods()
    ensures
        TimePeriod::Min5.token() == "5min"@ && TimePeriod::Min15.token() == "15min"@,
        TimePeriod::Min60.token() == "1h"@ && TimePeriod::Hr3.token() == "3h"@,
        TimePeriod::Hr6.token() == "6h"@ && TimePeriod::Hr12.token() == "12h"@,
        TimePeriod::Day1.token() == "1d"@ && TimePeriod::Day7.token() == "7d"@,
        TimePeriod::Day30.token() == "30d"@ && TimePeriod::Month1.token() == "1mo"@,
        TimePeriod::Month3.token() == "3mo"@ && TimePeriod::Month6.token() == "6mo"@,
        TimePeriod::Month12.token() == "1y"@,
        TimePeriod::named("5m"@) == Some(TimePeriod::Min5),
        TimePeriod::named("15m"@) == Some(TimePeriod::Min15),
        TimePeriod::named("60min"@) == Some(TimePeriod::Min60),
        TimePeriod::named("60m"@) == Some(TimePeriod::Min60),
        TimePeriod::named("12mo"@) == Some(TimePeriod::Month12),
{
    reveal_strlit("5min");
    reveal_strlit("5m");
    reveal_strlit("15min");
    reveal_strlit("15m");
    reveal_strlit("1h");
    reveal_strlit("60min");
    reveal_strlit("60m");
    reveal_strlit("3h");
    reveal_strlit("6h");
    reveal_strlit("12h");
    reveal_strlit("1d");
    reveal_strlit("7d");
    reveal_strlit("30d");
    reveal_strlit("1mo");
    reveal_strlit("3mo");
    reveal_strlit("6mo");
    reveal_strlit("1y");
    reveal_strlit("12mo");
    assert("15m"@[0] != "5min"@[0] && "15m"@.len() == 3 && "5m"@.len() == 2);
    assert("15min"@.len() == 5 && "60min"@.len() == 5 && "60min"@[0] == '6' && "15min"@[0] == '1');
    assert("60m"@.len() == 3 && "60m"@[0] == '6' && "15m"@[0] == '1' && "5min"@.len() == 4);
    assert("12mo"@.len() == 4 && "12mo"@[0] == '1' && "5min"@[0] == '5');
    assert("1h"@.len() == 2 && "3h"@.len() == 2 && "6h"@.len() == 2 && "12h"@.len() == 3);
    assert("1d"@.len() == 2 && "7d"@.len() == 2 && "30d"@.len() == 3 && "1mo"@.len() == 3);
    assert("3mo"@.len() == 3 && "6mo"@.len() == 3 && "1y"@.len() == 2);
}

/// A chart shows a run of slots, series by series: none where no memory was sampled.
pub proof fn law_chart_shows_the_run(c: SparklineData, run: Seq<Slot>, step: u64, i: int)
    requires
        c.shows(run, step),
        0 <= i < run.len(),
    ensures
        c.step_secs == step,
        c.req_rate@.len() == run.len() && c.mem_kb@.len() == run.len(),
        c.cpu_pct@.len() == run.len() && c.auth_fail@.len() == run.len(),
        c.jwt_fail@.len() == run.len() && c.jwt_expiry@.len() == run.len(),
        c.jwt_issued@.len() == run.len() && c.err4xx@.len() == run.len(),
        c.err5xx@.len() == run.len() && c.active@.len() == run.len(),
        c.req_rate@[i].requests == run[i].req && c.req_rate@[i].secs == step,
        run[i].mem == 0 ==> c.mem_kb@[i] is None,
        run[i].mem > 0 ==> c.mem_kb@[i] == Some(run[i].mem),
        c.cpu_pct@[i] == run[i].cpu && c.auth_fail@[i] == run[i].auth,
        c.jwt_fail@[i] == run[i].jwt && c.jwt_expiry@[i] == run[i].jwt_expiry,
        c.jwt_issued@[i] == run[i].jwt_issued && c.err4xx@[i] == run[i].err4xx,
        c.err5xx@[i] == run[i].err5xx && c.active@[i] == run[i].active,
{
}

/// Each archive is asked for its own slots and paths. To the paths of the last hour those of the
/// slot in progress are added.
pub proof fn law_archive_by_its_kind(m: Metrics, n: int, cap: int)
    ensures
        m.ring_of(ArchiveKind::Fine) == m.fine.ring,
        m.ring_of(ArchiveKind::Minute) == m.minute.ring,
        m.ring_of(ArchiveKind::Hourly) == m.hourly.ring,
        m.ring_of(ArchiveKind::Daily) == m.daily.ring,
        m.hits_of(ArchiveKind::Fine, n) == with_pairs(
            tally(m.paths.recent(n)),
            m.paths.current.pairs(),
        ),
        m.hits_of(ArchiveKind::Minute, n) == tally(m.minute.recent_paths(n)),
        m.hits_of(ArchiveKind::Hourly, n) == tally(m.hourly.recent_paths(n)),
        m.hits_of(ArchiveKind::Daily, n) == tally(m.daily.recent_paths(n)),
        n < cap ==> capped(n, cap) == n,
        n >= cap ==> capped(n, cap) == cap,
{
}

/// How long the server is up is told in whole days, hours, minutes and seconds that add up, from
/// the largest that is not zero on, and without seconds where there are days.
#[verifier::spinoff_prover]
pub proof fn law_uptime_in_words(d: nat, h: nat, m: nat, s: nat)
    requires
        h < 24,
        m < 60,
        s < 60,
    ensures
        ({
            let t = uptime_text((d * 86400 + h * 3600 + m * 60 + s) as int);
            &&& d > 0 ==> t == decimal(d) + "d "@ + decimal(h) + "h "@ + decimal(m) + "m"@
            &&& d == 0 && h > 0 ==> t == decimal(h) + "h "@ + decimal(m) + "m "@ + decimal(s) + "s"@
            &&& d == 0 && h == 0 && m > 0 ==> t == decimal(m) + "m "@ + decimal(s) + "s"@
            &&& d == 0 && h == 0 && m == 0 ==> t == decimal(s) + "s"@
        }),
{
    let secs = d * 86400 + h * 3600 + m * 60 + s;
    lemma_parts_of_a_day(d as int, h as int, m as int, s as int);
    let t = uptime_text(secs as int);
    if d > 0 {
        assert(t =~= decimal(d) + "d "@ + decimal(h) + "h "@ + decimal(m) + "m"@);
    } else if h > 0 {
        assert(t =~= decimal(h) + "h "@ + decimal(m) + "m "@ + decimal(s) + "s"@);
    } else if m > 0 {
        assert(t =~= decimal(m) + "m "@ + decimal(s) + "s"@);
    }
}

/// The days, hours, minutes and seconds of a number of seconds.
#[verifier::spinoff_prover]
proof fn lemma_parts_of_a_day(d: int, h: int, m: int, s: int)
    requires
        0 <= d,
        0 <= h < 24,
        0 <= m < 60,
        0 <= s < 60,
    ensures
        ({
            let secs = d * 86400 + h * 3600 + m * 60 + s;
            &&& secs / 86400 == d
            &&& secs % 86400 / 3600 == h
            &&& secs % 3600 / 60 == m
            &&& secs % 60 == s
        }),
{
    let secs = d * 86400 + h * 3600 + m * 60 + s;
    let day = h * 3600 + m * 60 + s;
    let hour = m * 60 + s;
    assert(secs == d * 86400 + day && 0 <= day < 86400);
    assert(secs / 86400 == d && secs % 86400 == day);
    assert(day / 3600 == h);
    assert(secs == (d * 24 + h) * 3600 + hour && 0 <= hour < 3600);
    assert(secs % 3600 == hour);
    assert(hour / 60 == m);
    assert(secs == (d * 1440 + h * 60 + m) * 60 + s);
    assert(secs % 60 == s);
}

/// The memory of the process is the number in the first line that begins with its word.
pub proof fn law_memory_line(text: Seq<char>, i: int, rest: Seq<char>)
    ensures
        ({
            let lines = parts(text, '\n');
            &&& 0 <= i < lines.len() && lines[i] == "VmRSS:"@ + rest && (forall|j: int|
                0 <= j < i ==> !has_prefix(#[trigger] lines[j], "VmRSS:"@)) ==> memory_kb_in(text)
                == if words(rest).len() > 0 {
                read_unsigned(words(rest)[0], 0xffff_ffff_ffff_ffff)
            } else {
                None
            }
            &&& (forall|j: int|
                0 <= j < lines.len() ==> !has_prefix(#[trigger] lines[j], "VmRSS:"@))
                ==> memory_kb_in(text) is None
        }),
{
    reveal_strlit("VmRSS:");
    let lines = parts(text, '\n');
    if 0 <= i < lines.len() && lines[i] == "VmRSS:"@ + rest && (forall|j: int|
        0 <= j < i ==> !has_prefix(#[trigger] lines[j], "VmRSS:"@)) {
        assert(lines[i].take(6) =~= "VmRSS:"@);
        lemma_rss_line(lines, 0, i);
        assert(lines[i].skip(6) =~= rest);
    }
    if forall|j: int| 0 <= j < lines.len() ==> !has_prefix(#[trigger] lines[j], "VmRSS:"@) {
        lemma_rss_line(lines, 0, lines.len() as int);
    }
}

proof fn lemma_rss_line(lines: Seq<Seq<char>>, k: int, i: int)
    requires
        0 <= k <= i <= lines.len(),
        i < lines.len() ==> has_prefix(lines[i], "VmRSS:"@),
        forall|j: int| 0 <= j < i ==> !has_prefix(#[trigger] lines[j], "VmRSS:"@),
    ensures
        rss_line(lines, k) == i,
    decreases i - k,
{
    if k < i {
        lemma_rss_line(lines, k + 1, i);
    }
}

/// The processor time of the process is the sum of the twelfth and the thirteenth word behind
/// the name in brackets, modulo 2^64.
pub proof fn law_processor_time(text: Seq<char>, user: u64, system: u64)
    ensures
        ({
            let p = parts(text, ')');
            let w = words(p[1]);
            let a = read_unsigned(w[11], 0xffff_ffff_ffff_ffff);
            let b = read_unsigned(w[12], 0xffff_ffff_ffff_ffff);
            &&& p.len() < 2 ==> cpu_ticks_in(text) is None
            &&& p.len() >= 2 && w.len() < 13 ==> cpu_ticks_in(text) is None
            &&& p.len() >= 2 && w.len() >= 13 && (a is None || b is None) ==> cpu_ticks_in(text)
                is None
            &&& p.len() >= 2 && w.len() >= 13 && a == Some(user as nat) && b == Some(system as nat)
                ==> cpu_ticks_in(text) == Some(user.wrapping_add(system) as nat)
        }),
{
}

/// The ticks that were spent are the difference of two samples: none before there are two, and
/// none where the second is smaller.
pub proof fn law_ticks_spent(last: u64, now: u64)
    ensures
        ticks_spent(0, now) == 0,
        last > now ==> ticks_spent(last, now) == 0,
        0 < last <= now ==> last + ticks_spent(last, now) == now,
{
}

} // verus!
