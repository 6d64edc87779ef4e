use hypershunt::metrics::archive::{consolidate, Ring, Series, Slot};
use hypershunt::metrics::counters::{latency_bucket, ClassCounters, HandlerKind, HANDLER_KIND_ALL};
use hypershunt::metrics::paths::{top_n, PathData, MAX_PATH_BYTES, MAX_TRACKED_PATHS};
use hypershunt::metrics::period::{
    ArchiveKind, TimePeriod, FINE_SLOTS, HOURLY_RATIO, MINUTE_RATIO, WINDOW_SECS,
};
use hypershunt::metrics::procfs::{read_cpu_ticks, read_memory_kb};
use hypershunt::metrics::snapshot::{Rate, Snapshot};
use hypershunt::metrics::tick::TickSample;
use hypershunt::metrics::Metrics;

fn per_sec(r: &Rate) -> f64 {
    r.requests as f64 / r.secs as f64
}

fn requests(n: u32) -> Slot {
    let mut s = Slot::empty();
    s.req = n;
    s
}

fn sample(mem_kb: u64) -> TickSample {
    TickSample { mem_kb, cpu_ticks: 0, cpu_hp: 0 }
}

#[test]
fn new_metrics_start_at_zero() {
    let m = Metrics::new();
    assert_eq!(m.requests_total, 0);
    assert_eq!(m.requests_active, 0);
    assert_eq!(m.status_2xx, 0);
    assert_eq!(m.status_5xx, 0);
    assert_eq!(m.auth_failures, 0);
    assert_eq!(m.jwt_failures, 0);
    for b in &m.latency {
        assert_eq!(*b, 0);
    }
}

#[test]
fn record_increments_correct_status_bucket() {
    let mut m = Metrics::new();
    m.record(200, 1);
    m.record(204, 1);
    m.record(301, 1);
    m.record(404, 1);
    m.record(503, 1);
    assert_eq!(m.status_2xx, 2);
    assert_eq!(m.status_3xx, 1);
    assert_eq!(m.status_4xx, 1);
    assert_eq!(m.status_5xx, 1);
    assert_eq!(m.requests_total, 5);
}

#[test]
fn record_increments_correct_latency_bucket() {
    let mut m = Metrics::new();
    m.record(200, 0); // <1ms  -> bucket 0
    m.record(200, 5); // <10ms -> bucket 1
    m.record(200, 30); // <50ms -> bucket 2
    m.record(200, 100); // <200ms -> bucket 3
    m.record(200, 500); // <1s -> bucket 4
    m.record(200, 2000); // >=1s -> bucket 5
    for (i, b) in m.latency.iter().enumerate() {
        assert_eq!(*b, 1, "bucket {i} should have count 1");
    }
}

#[test]
fn inc_dec_active_tracks_concurrency() {
    let mut m = Metrics::new();
    m.inc_active();
    m.inc_active();
    m.inc_active();
    assert_eq!(m.requests_active, 3);
    m.dec_active();
    assert_eq!(m.requests_active, 2);
}

#[test]
fn rate_is_zero_before_any_tick() {
    let mut m = Metrics::new();
    m.record(200, 1);
    let snap = m.snapshot(0, None);
    // Ring buffer has no completed windows yet -- all rates are 0.
    assert_eq!(per_sec(&snap.rate_1min), 0.0);
    assert_eq!(per_sec(&snap.rate_5min), 0.0);
    assert_eq!(per_sec(&snap.rate_15min), 0.0);
    // But current-window rate reflects the request.
    assert!(per_sec(&snap.rate_current) > 0.0);
}

#[test]
fn tick_advances_ring_buffer() {
    let mut m = Metrics::new();
    for _ in 0..5 {
        m.record(200, 1);
    }
    // Simulate one tick by directly writing the fine archive.
    let total = m.requests_total;
    {
        let h = &mut m.fine;
        let delta = total.saturating_sub(h.last.total);
        let head = h.ring.head;
        h.ring.slots[head].req = delta as u32;
        h.ring.head = (head + 1) % FINE_SLOTS;
        h.ring.written += 1;
        h.last.total = total;
    }
    let snap = m.snapshot(0, None);
    // 5 requests in one 5-second window: rate_1min averages over
    // 12 windows: 5 / (12 * 5) is about 0.0833 req/s.
    let expected = 5.0 / (12.0 * WINDOW_SECS as f64);
    assert!(
        (per_sec(&snap.rate_1min) - expected).abs() < 0.001,
        "rate_1min={} expected={}",
        per_sec(&snap.rate_1min),
        expected
    );
}

#[test]
fn uptime_human_formats_correctly() {
    let snap = |secs: u64| -> String {
        Snapshot { uptime_secs: secs, ..Default::default() }.uptime_human()
    };
    assert_eq!(snap(30), "30s");
    assert_eq!(snap(90), "1m 30s");
    assert_eq!(snap(3661), "1h 1m 1s");
    assert_eq!(snap(86400 + 3661), "1d 1h 1m");
}

#[test]
fn sparkline_for_period_returns_correct_length() {
    let m = Metrics::new();
    let sd = m.sparkline_for_period(TimePeriod::Min15);
    assert_eq!(sd.req_rate.len(), 180);
    assert_eq!(sd.mem_kb.len(), 180);
    assert_eq!(sd.cpu_pct.len(), 180);
    assert_eq!(sd.auth_fail.len(), 180);
    assert_eq!(sd.jwt_fail.len(), 180);

    let sd5 = m.sparkline_for_period(TimePeriod::Min5);
    assert_eq!(sd5.req_rate.len(), 60);
}

#[test]
fn sparkline_step_secs_matches_archive() {
    assert_eq!(TimePeriod::Min5.step_secs(), WINDOW_SECS);
    assert_eq!(TimePeriod::Hr3.step_secs(), WINDOW_SECS * MINUTE_RATIO);
    assert_eq!(TimePeriod::Day7.step_secs(), WINDOW_SECS * MINUTE_RATIO * HOURLY_RATIO);
}

#[test]
fn record_path_appears_in_paths_for_period() {
    let mut m = Metrics::new();
    m.record_path("/foo");
    m.record_path("/foo");
    m.record_path("/bar");
    // paths_for_period uses the live current accumulator for fine periods.
    let paths = m.paths_for_period(TimePeriod::Min5);
    assert!(paths.iter().any(|(p, c)| p == "/foo" && *c == 2), "expected /foo x 2 in paths");
    assert!(paths.iter().any(|(p, c)| p == "/bar" && *c == 1), "expected /bar x 1 in paths");
}

#[test]
fn sparkline_req_rate_reflects_ticked_data() {
    let mut m = Metrics::new();
    for _ in 0..10 {
        m.record(200, 1);
    }
    // Simulate one fine tick.
    let total = m.requests_total;
    {
        let h = &mut m.fine;
        let delta = total.saturating_sub(h.last.total) as u32;
        let head = h.ring.head;
        h.ring.slots[head].req = delta;
        h.ring.head = (head + 1) % FINE_SLOTS;
        h.ring.written += 1;
        h.last.total = total;
    }
    let sd = m.sparkline_for_period(TimePeriod::Min5);
    // Most recent slot: 10 req / 5s = 2.0 req/s.
    let last = per_sec(sd.req_rate.last().unwrap());
    assert!((last - 2.0).abs() < 0.01, "expected ~2.0 req/s, got {last}");
}

#[test]
fn auth_failure_counter_increments() {
    let mut m = Metrics::new();
    m.auth_failures += 3;
    m.jwt_failures += 1;
    let snap = m.snapshot(0, None);
    assert_eq!(snap.auth_failures_total, 3);
    assert_eq!(snap.jwt_failures_total, 1);
}

#[test]
fn time_period_roundtrip() {
    let pairs = [
        ("5min", TimePeriod::Min5),
        ("15min", TimePeriod::Min15),
        ("1h", TimePeriod::Min60),
        ("3h", TimePeriod::Hr3),
        ("1d", TimePeriod::Day1),
        ("7d", TimePeriod::Day7),
        ("1y", TimePeriod::Month12),
    ];
    for (s, p) in pairs {
        assert_eq!(TimePeriod::from_query(s), p, "from_query({s})");
        assert_eq!(TimePeriod::from_query(p.as_str()), p, "roundtrip {s}");
    }
}

#[test]
fn consolidation_writes_minute_slot() {
    let mut m = Metrics::new();
    // Write 12 fine slots manually (simulating 12 ticks).
    for i in 0u32..12 {
        let h = &mut m.fine.ring;
        let head = h.head;
        h.slots[head].req = i + 1;
        h.head = (head + 1) % FINE_SLOTS;
        h.written += 1;
    }
    // Simulate path data for those fine slots.
    {
        let p = &mut m.paths;
        for i in 0..12 {
            let ph = p.head;
            p.slots[ph].insert("/test".to_owned(), (i + 1) as u64);
            p.head = (ph + 1) % FINE_SLOTS;
        }
    }
    // Trigger consolidation.
    m.consolidate_fine_to_minute();
    let minute = &m.minute;
    let cap = minute.ring.slots.len();
    // Slot just written is at (head - 1).
    let idx = (minute.ring.head + cap - 1) % cap;
    // Sum of 1..=12 = 78.
    assert_eq!(minute.ring.slots[idx].req, 78, "consolidated req sum");
    // Paths: /test appears 12 times, counts sum to 1+2+...+12=78.
    assert!(
        minute.paths[idx].iter().any(|(p, c)| p == "/test" && *c == 78),
        "consolidated path count"
    );
}

#[test]
fn snapshot_surfaces_stream_counters() {
    let mut m = Metrics::new();
    m.stream_conns_total += 3;
    m.stream_conns_active += 2;
    m.stream_bytes_in_total += 100;
    m.stream_bytes_out_total += 200;
    let s = m.snapshot(0, None);
    assert_eq!(s.stream.conns_total, 3);
    assert_eq!(s.stream.conns_active, 2);
    assert_eq!(s.stream.bytes_in, 100);
    assert_eq!(s.stream.bytes_out, 200);
}

#[test]
fn snapshot_surfaces_datagram_counters() {
    let mut m = Metrics::new();
    m.datagram_flows_active += 5;
    m.bytes_in_total += 42;
    let s = m.snapshot(0, None);
    assert_eq!(s.datagram.flows_active, 5);
    assert_eq!(s.datagram.bytes_in, 42);
}

#[test]
fn snapshot_surfaces_lb_and_upstream_counters() {
    let mut m = Metrics::new();
    m.proxy_lb_picks += 7;
    m.proxy_lb_health_checks_total += 4;
    m.proxy_upstream_connect_errors_total += 1;
    m.record_proxy_upstream_latency(5); // bucket 1 (<10ms)
    let s = m.snapshot(0, None);
    assert_eq!(s.lb.picks, 7);
    assert_eq!(s.lb.health_checks, 4);
    assert_eq!(s.upstream.connect_errors, 1);
    assert_eq!(s.upstream.latency[1], 1);
}

#[test]
fn snapshot_surfaces_compression_tls_geoip() {
    let mut m = Metrics::new();
    m.compress_responses_total += 2;
    m.compress_zstd_total += 2;
    m.tls_handshakes_total += 9;
    m.geoip_lookups_total += 3;
    m.geoip_lookup_misses_total += 1;
    let s = m.snapshot(0, None);
    assert_eq!(s.compression.responses, 2);
    assert_eq!(s.compression.zstd, 2);
    assert_eq!(s.tls.handshakes, 9);
    assert_eq!(s.geoip.lookups, 3);
    assert_eq!(s.geoip.misses, 1);
}

#[test]
fn snapshot_surfaces_oidc_and_backends() {
    let mut m = Metrics::new();
    m.oidc_bearer_validations += 6;
    m.fcgi_requests_total += 2;
    m.cgi_spawn_failures_total += 1;
    m.static_bytes_served_total += 4096;
    let s = m.snapshot(0, None);
    assert_eq!(s.oidc.bearer_validations, 6);
    assert_eq!(s.fcgi.requests, 2);
    assert_eq!(s.cgi.spawn_failures, 1);
    assert_eq!(s.static_files.bytes_served, 4096);
}

#[test]
fn record_class_aggregates_by_handler_and_vhost() {
    let mut m = Metrics::new();
    m.record_class(HandlerKind::Proxy, "example.com", 200);
    m.record_class(HandlerKind::Proxy, "example.com", 502);
    m.record_class(HandlerKind::Static, "other.com", 404);
    let s = m.snapshot(0, None);
    // Per-handler: proxy has 2 (one 2xx, one 5xx), static has 1 4xx.
    let proxy = s.by_handler.iter().find(|(n, _)| *n == "proxy").map(|(_, c)| *c).unwrap();
    assert_eq!(proxy.total, 2);
    assert_eq!(proxy.s2xx, 1);
    assert_eq!(proxy.s5xx, 1);
    // Per-vhost: example.com has 2, other.com has 1.
    let ex = s.by_vhost.iter().find(|(n, _)| n == "example.com").map(|(_, c)| *c).unwrap();
    assert_eq!(ex.total, 2);
    assert_eq!(ex.s4xx, 0);
}

#[test]
fn status_outside_the_classes_counts_only_in_the_total() {
    let mut m = Metrics::new();
    m.record(101, 1);
    m.record(700, 1);
    assert_eq!(m.requests_total, 2);
    assert_eq!(m.status_2xx + m.status_3xx + m.status_4xx + m.status_5xx, 0);
    assert_eq!(m.latency.iter().sum::<u64>(), 2);
}

#[test]
fn latency_buckets_end_where_they_should() {
    let edges = [(0, 0), (1, 1), (9, 1), (10, 2), (49, 2), (50, 3), (199, 3), (200, 4), (999, 4)];
    for (ms, bucket) in edges {
        assert_eq!(latency_bucket(ms), bucket, "{ms} ms");
    }
    assert_eq!(latency_bucket(1000), 5);
    assert_eq!(latency_bucket(u128::MAX), 5);
}

#[test]
fn class_counters_tally_each_class() {
    let mut c = ClassCounters::new();
    for s in [200, 299, 301, 404, 500, 599] {
        c.record(s);
    }
    let s = c.snapshot();
    assert_eq!(s.total, 6);
    assert_eq!((s.s2xx, s.s3xx, s.s4xx, s.s5xx), (2, 1, 1, 2));
}

#[test]
fn handler_labels_stand_at_their_index() {
    for k in HANDLER_KIND_ALL {
        let mut m = Metrics::new();
        m.record_class(k, "v", 200);
        let s = m.snapshot(0, None);
        assert_eq!(s.by_handler[k.index()].0, k.label());
        assert_eq!(s.by_handler[k.index()].1.total, 1);
        assert_eq!(s.by_handler.iter().map(|(_, c)| c.total).sum::<u64>(), 1);
    }
}

#[test]
fn tick_shows_in_the_last_slot() {
    let mut m = Metrics::new();
    m.record(200, 1);
    m.record(404, 1);
    m.tick(sample(1234));
    let last = m.fine.ring.latest();
    assert_eq!(last.req, 2);
    assert_eq!(last.err4xx, 1);
    assert_eq!(last.mem, 1234);
    m.tick(sample(0));
    assert_eq!(m.fine.ring.latest().req, 0);
    assert_eq!(m.fine.window_req(2), 2);
    let sd = m.sparkline_for_period(TimePeriod::Min5);
    assert_eq!(sd.mem_kb[58], Some(1234));
    assert_eq!(sd.mem_kb[59], None);
}

#[test]
fn requests_survive_consolidation() {
    let mut m = Metrics::new();
    let mut sent: u64 = 0;
    for i in 0..720u64 {
        for _ in 0..(i % 3) {
            m.record(200, 1);
            sent += 1;
        }
        m.tick(sample(0));
    }
    assert_eq!(m.fine.window_req(720), sent);
    assert_eq!(m.minute.ring.window(Series::Req, 60), sent);
    assert_eq!(m.hourly.ring.window(Series::Req, 1), sent);
    assert_eq!(m.hourly.ring.written, 1);
    assert_eq!(m.daily.ring.written, 0);
}

#[test]
fn consolidated_gauges_are_averages() {
    let mut a = Slot::empty();
    a.mem = 10;
    a.cpu = 100;
    a.active = 4;
    let mut b = Slot::empty();
    b.mem = 20;
    b.cpu = 300;
    b.active = 6;
    b.req = 7;
    let c = consolidate(&vec![a, b]);
    assert_eq!(c.mem, 15);
    assert_eq!(c.cpu, 200);
    assert_eq!(c.active, 5);
    assert_eq!(c.req, 7);
}

#[test]
fn ring_forgets_the_oldest() {
    let mut r = Ring::new(3);
    for i in 1..=4 {
        r.push(requests(i));
    }
    let last: Vec<u32> = r.last_slots(3).iter().map(|s| s.req).collect();
    assert_eq!(last, vec![2, 3, 4]);
    assert_eq!(r.window(Series::Req, 2), 7);
    assert_eq!(r.window(Series::Req, 100), 9);
}

#[test]
fn long_paths_are_cut_at_a_character() {
    let mut p = PathData::new();
    let long = format!("/{}", "x".repeat(MAX_PATH_BYTES + 40));
    p.record(&long);
    assert_eq!(p.current.get(&long[..MAX_PATH_BYTES]), Some(&1));
    assert_eq!(p.current.len(), 1);
}

#[test]
fn tracked_paths_are_bounded() {
    let mut p = PathData::new();
    for i in 0..MAX_TRACKED_PATHS + 5 {
        p.record(&format!("/{i}"));
    }
    assert_eq!(p.current.len(), MAX_TRACKED_PATHS);
    p.record("/0");
    assert_eq!(p.current.get("/0"), Some(&2));
}

#[test]
fn top_paths_come_by_hits() {
    let v = vec![("a".to_string(), 1), ("b".to_string(), 5), ("c".to_string(), 3)];
    let top = top_n(&v, 2);
    assert_eq!(top, vec![("b".to_string(), 5), ("c".to_string(), 3)]);
    assert_eq!(top_n(&v, 9).len(), 3);
}

#[test]
fn unknown_period_falls_back() {
    assert_eq!(TimePeriod::from_query("nonsense"), TimePeriod::from_query(""));
    let (kind, slots) = TimePeriod::Min5.archive();
    assert_eq!(kind, ArchiveKind::Fine);
    assert_eq!(slots, 60);
}

#[test]
fn proc_files_are_read() {
    let status = "Name:\thypershunt\nVmPeak:\t  9999 kB\nVmRSS:\t  2048 kB\n";
    assert_eq!(read_memory_kb(status), Some(2048));
    assert_eq!(read_memory_kb("Name:\tx\n"), None);
    assert_eq!(read_memory_kb("VmRSS:\tlots kB\n"), None);
    let stat = "42 (hyper shunt) S 1 42 42 0 -1 4194560 100 0 0 0 17 25 0 0 20 0 1 0";
    assert_eq!(read_cpu_ticks(stat), Some(42));
    assert_eq!(read_cpu_ticks("42 hypershunt S"), None);
}

#[test]
fn snapshot_carries_what_it_is_given() {
    let mut m = Metrics::new();
    m.inc_active();
    let s = m.snapshot(77, Some(512));
    assert_eq!(s.uptime_secs, 77);
    assert_eq!(s.memory_kb, Some(512));
    assert_eq!(s.requests_active, 1);
    assert_eq!(s.uptime_human(), "1m 17s");
}

#[test]
fn breakdowns_add_up_to_the_requests() {
    let mut m = Metrics::new();
    let calls = [
        (HandlerKind::Static, "a.example", 200),
        (HandlerKind::Proxy, "b.example", 301),
        (HandlerKind::Proxy, "a.example", 101),
        (HandlerKind::Static, "a.example", 700),
        (HandlerKind::Proxy, "b.example", 502),
    ];
    for (kind, host, status) in calls {
        m.record_class(kind, host, status);
    }
    let (kinds, hosts) = m.class_snapshots();
    assert_eq!(kinds.iter().map(|k| k.1.total).sum::<u64>(), 5);
    assert_eq!(hosts.iter().map(|h| h.1.total).sum::<u64>(), 5);
    let mut names: Vec<&str> = hosts.iter().map(|h| h.0.as_str()).collect();
    names.sort();
    assert_eq!(names, ["a.example", "b.example"]);
    let a = &hosts.iter().find(|h| h.0 == "a.example").unwrap().1;
    assert_eq!((a.total, a.s2xx + a.s3xx + a.s4xx + a.s5xx), (3, 1));
    let counted = (m.status_2xx, m.status_3xx, m.status_4xx, m.status_5xx);
    assert_eq!((m.requests_total, counted), (0, (0, 0, 0, 0)));
}

#[test]
fn fine_slots_add_up_to_the_requests() {
    let mut m = Metrics::new();
    for n in [3, 0, 5, 1] {
        for _ in 0..n {
            m.record(200, 1);
        }
        m.tick(sample(0));
    }
    // Not yet ticked, so in no slot.
    m.record(200, 1);
    assert_eq!(m.fine.ring.window(Series::Req, 4), 9);
    assert_eq!(m.requests_total, 10);
}

#[test]
fn ticks_fill_the_archives_in_turn() {
    let mut m = Metrics::new();
    for k in 1..=1451u64 {
        m.tick(sample(0));
        assert_eq!(m.fine.ring.written, k);
        assert_eq!(m.minute.ring.written, k / 12);
        assert_eq!(m.hourly.ring.written, k / 720);
        assert_eq!(m.daily.ring.written, 0);
    }
}
