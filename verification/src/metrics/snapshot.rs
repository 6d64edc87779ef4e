//! Plain-data copies of the counters for the renderers.
use crate::decimal::{decimal, push_decimal};
use crate::metrics::counters::ClassSnapshot;
use vstd::prelude::*;

verus! {

/// TCP stream proxy.
#[derive(Clone, Copy, Debug, PartialEq, Eq)]
pub struct StreamSnap {
    pub conns_active: i64,
    pub conns_total: u64,
    pub bytes_in: u64,
    pub bytes_out: u64,
}

impl StreamSnap {
    pub open spec fn zero() -> StreamSnap {
        StreamSnap { conns_active: 0, conns_total: 0, bytes_in: 0, bytes_out: 0 }
    }
}

impl Default for StreamSnap {
    fn default() -> (r: Self)
        ensures
            r == StreamSnap::zero(),
    {
        StreamSnap { conns_active: 0, conns_total: 0, bytes_in: 0, bytes_out: 0 }
    }
}

/// Response compression.
#[derive(Clone, Copy, Debug, PartialEq, Eq)]
pub struct CompressionSnap {
    pub responses: u64,
    pub skipped: u64,
    pub bytes_in: u64,
    pub bytes_out: u64,
    pub gzip: u64,
    pub brotli: u64,
    pub zstd: u64,
}

impl CompressionSnap {
    pub open spec fn zero() -> CompressionSnap {
        CompressionSnap { responses: 0, skipped: 0, bytes_in: 0, bytes_out: 0, gzip: 0, brotli: 0, zstd: 0 }
    }
}

impl Default for CompressionSnap {
    fn default() -> (r: Self)
        ensures
            r == CompressionSnap::zero(),
    {
        CompressionSnap { responses: 0, skipped: 0, bytes_in: 0, bytes_out: 0, gzip: 0, brotli: 0, zstd: 0 }
    }
}

/// Inbound TLS handshakes on TCP listeners.
#[derive(Clone, Copy, Debug, PartialEq, Eq)]
pub struct TlsSnap {
    pub handshakes: u64,
    pub failures: u64,
    pub timeouts: u64,
}

impl TlsSnap {
    pub open spec fn zero() -> TlsSnap {
        TlsSnap { handshakes: 0, failures: 0, timeouts: 0 }
    }
}

impl Default for TlsSnap {
    fn default() -> (r: Self)
        ensures
            r == TlsSnap::zero(),
    {
        TlsSnap { handshakes: 0, failures: 0, timeouts: 0 }
    }
}

/// GeoIP lookups.
#[derive(Clone, Copy, Debug, PartialEq, Eq)]
pub struct GeoipSnap {
    pub lookups: u64,
    pub misses: u64,
}

impl GeoipSnap {
    pub open spec fn zero() -> GeoipSnap {
        GeoipSnap { lookups: 0, misses: 0 }
    }
}

impl Default for GeoipSnap {
    fn default() -> (r: Self)
        ensures
            r == GeoipSnap::zero(),
    {
        GeoipSnap { lookups: 0, misses: 0 }
    }
}

/// Connections at graceful shutdown.
#[derive(Clone, Copy, Debug, PartialEq, Eq)]
pub struct ShutdownSnap {
    pub drained: u64,
    pub abandoned: u64,
}

impl ShutdownSnap {
    pub open spec fn zero() -> ShutdownSnap {
        ShutdownSnap { drained: 0, abandoned: 0 }
    }
}

impl Default for ShutdownSnap {
    fn default() -> (r: Self)
        ensures
            r == ShutdownSnap::zero(),
    {
        ShutdownSnap { drained: 0, abandoned: 0 }
    }
}

/// ACME certificate lifecycle.
#[derive(Clone, Copy, Debug, PartialEq, Eq)]
pub struct AcmeSnap {
    pub issuances: u64,
    pub issuance_failures: u64,
    pub renewals: u64,
    pub renewal_failures: u64,
}

impl AcmeSnap {
    pub open spec fn zero() -> AcmeSnap {
        AcmeSnap { issuances: 0, issuance_failures: 0, renewals: 0, renewal_failures: 0 }
    }
}

impl Default for AcmeSnap {
    fn default() -> (r: Self)
        ensures
            r == AcmeSnap::zero(),
    {
        AcmeSnap { issuances: 0, issuance_failures: 0, renewals: 0, renewal_failures: 0 }
    }
}

/// OCSP stapling.
#[derive(Clone, Copy, Debug, PartialEq, Eq)]
pub struct OcspSnap {
    pub refreshes: u64,
    pub refresh_failures: u64,
}

impl OcspSnap {
    pub open spec fn zero() -> OcspSnap {
        OcspSnap { refreshes: 0, refresh_failures: 0 }
    }
}

impl Default for OcspSnap {
    fn default() -> (r: Self)
        ensures
            r == OcspSnap::zero(),
    {
        OcspSnap { refreshes: 0, refresh_failures: 0 }
    }
}

/// Reverse-proxy load balancer.
#[derive(Clone, Copy, Debug, PartialEq, Eq)]
pub struct LbSnap {
    pub picks: u64,
    pub no_upstream: u64,
    pub retries: u64,
    pub ejections: u64,
    pub health_failures: u64,
    pub health_recoveries: u64,
    pub health_checks: u64,
}

impl LbSnap {
    pub open spec fn zero() -> LbSnap {
        LbSnap { picks: 0, no_upstream: 0, retries: 0, ejections: 0, health_failures: 0, health_recoveries: 0, health_checks: 0 }
    }
}

impl Default for LbSnap {
    fn default() -> (r: Self)
        ensures
            r == LbSnap::zero(),
    {
        LbSnap { picks: 0, no_upstream: 0, retries: 0, ejections: 0, health_failures: 0, health_recoveries: 0, health_checks: 0 }
    }
}

/// Reverse-proxy upstream traffic.
#[derive(Clone, Copy, Debug, PartialEq, Eq)]
pub struct UpstreamSnap {
    pub bytes_in: u64,
    pub bytes_out: u64,
    pub connect_errors: u64,
    pub latency: [u64; 6],
}

impl Default for UpstreamSnap {
    fn default() -> (r: Self)
        ensures
            r.bytes_in == 0,
            r.bytes_out == 0,
            r.connect_errors == 0,
            forall|i: int| 0 <= i < 6 ==> r.latency@[i] == 0,
    {
        UpstreamSnap { bytes_in: 0, bytes_out: 0, connect_errors: 0, latency: [0, 0, 0, 0, 0, 0] }
    }
}

/// Rate limiter.
#[derive(Clone, Copy, Debug, PartialEq, Eq)]
pub struct RateLimitSnap {
    pub triggers: u64,
    pub active_keys: u64,
}

impl RateLimitSnap {
    pub open spec fn zero() -> RateLimitSnap {
        RateLimitSnap { triggers: 0, active_keys: 0 }
    }
}

impl Default for RateLimitSnap {
    fn default() -> (r: Self)
        ensures
            r == RateLimitSnap::zero(),
    {
        RateLimitSnap { triggers: 0, active_keys: 0 }
    }
}

/// Response cache.
#[derive(Clone, Copy, Debug, PartialEq, Eq)]
pub struct CacheSnap {
    pub hits: u64,
    pub misses: u64,
    pub stores: u64,
    pub bypass: u64,
    pub evictions: u64,
    pub revalidations: u64,
    pub entries: u64,
    pub bytes: u64,
}

impl CacheSnap {
    pub open spec fn zero() -> CacheSnap {
        CacheSnap { hits: 0, misses: 0, stores: 0, bypass: 0, evictions: 0, revalidations: 0, entries: 0, bytes: 0 }
    }
}

impl Default for CacheSnap {
    fn default() -> (r: Self)
        ensures
            r == CacheSnap::zero(),
    {
        CacheSnap { hits: 0, misses: 0, stores: 0, bypass: 0, evictions: 0, revalidations: 0, entries: 0, bytes: 0 }
    }
}

/// Datagram proxy.
#[derive(Clone, Copy, Debug, PartialEq, Eq)]
pub struct DatagramSnap {
    pub flows_active: u64,
    pub datagrams_in: u64,
    pub datagrams_out: u64,
    pub bytes_in: u64,
    pub bytes_out: u64,
    pub flow_create: u64,
    pub flow_evict: u64,
}

impl DatagramSnap {
    pub open spec fn zero() -> DatagramSnap {
        DatagramSnap { flows_active: 0, datagrams_in: 0, datagrams_out: 0, bytes_in: 0, bytes_out: 0, flow_create: 0, flow_evict: 0 }
    }
}

impl Default for DatagramSnap {
    fn default() -> (r: Self)
        ensures
            r == DatagramSnap::zero(),
    {
        DatagramSnap { flows_active: 0, datagrams_in: 0, datagrams_out: 0, bytes_in: 0, bytes_out: 0, flow_create: 0, flow_evict: 0 }
    }
}

/// HTTP connections.
#[derive(Clone, Copy, Debug, PartialEq, Eq)]
pub struct HttpConnSnap {
    pub active: i64,
    pub total: u64,
}

impl HttpConnSnap {
    pub open spec fn zero() -> HttpConnSnap {
        HttpConnSnap { active: 0, total: 0 }
    }
}

impl Default for HttpConnSnap {
    fn default() -> (r: Self)
        ensures
            r == HttpConnSnap::zero(),
    {
        HttpConnSnap { active: 0, total: 0 }
    }
}

/// A FastCGI or SCGI backend handler.
#[derive(Clone, Copy, Debug, PartialEq, Eq)]
pub struct BackendSnap {
    pub requests: u64,
    pub errors: u64,
    pub in_flight: i64,
}

impl BackendSnap {
    pub open spec fn zero() -> BackendSnap {
        BackendSnap { requests: 0, errors: 0, in_flight: 0 }
    }
}

impl Default for BackendSnap {
    fn default() -> (r: Self)
        ensures
            r == BackendSnap::zero(),
    {
        BackendSnap { requests: 0, errors: 0, in_flight: 0 }
    }
}

/// The CGI handler, with spawn failures and timeouts apart.
#[derive(Clone, Copy, Debug, PartialEq, Eq)]
pub struct CgiSnap {
    pub requests: u64,
    pub errors: u64,
    pub in_flight: i64,
    pub spawn_failures: u64,
    pub timeouts: u64,
}

impl CgiSnap {
    pub open spec fn zero() -> CgiSnap {
        CgiSnap { requests: 0, errors: 0, in_flight: 0, spawn_failures: 0, timeouts: 0 }
    }
}

impl Default for CgiSnap {
    fn default() -> (r: Self)
        ensures
            r == CgiSnap::zero(),
    {
        CgiSnap { requests: 0, errors: 0, in_flight: 0, spawn_failures: 0, timeouts: 0 }
    }
}

/// The static-file handler.
#[derive(Clone, Copy, Debug, PartialEq, Eq)]
pub struct StaticSnap {
    pub bytes_served: u64,
    pub not_modified: u64,
    pub range: u64,
}

impl StaticSnap {
    pub open spec fn zero() -> StaticSnap {
        StaticSnap { bytes_served: 0, not_modified: 0, range: 0 }
    }
}

impl Default for StaticSnap {
    fn default() -> (r: Self)
        ensures
            r == StaticSnap::zero(),
    {
        StaticSnap { bytes_served: 0, not_modified: 0, range: 0 }
    }
}

/// OIDC sign-in.
#[derive(Clone, Copy, Debug, PartialEq, Eq)]
pub struct OidcSnap {
    pub refreshes: u64,
    pub refresh_failures: u64,
    pub logouts: u64,
    pub discoveries: u64,
    pub discovery_failures: u64,
    pub userinfo_failures: u64,
    pub backchannel_logouts: u64,
    pub backchannel_failures: u64,
    pub bearer_validations: u64,
    pub bearer_failures: u64,
    pub revocations: u64,
    pub revocation_failures: u64,
    pub callback_iss_mismatches: u64,
}

impl OidcSnap {
    pub open spec fn zero() -> OidcSnap {
        OidcSnap { refreshes: 0, refresh_failures: 0, logouts: 0, discoveries: 0, discovery_failures: 0, userinfo_failures: 0, backchannel_logouts: 0, backchannel_failures: 0, bearer_validations: 0, bearer_failures: 0, revocations: 0, revocation_failures: 0, callback_iss_mismatches: 0 }
    }
}

impl Default for OidcSnap {
    fn default() -> (r: Self)
        ensures
            r == OidcSnap::zero(),
    {
        OidcSnap { refreshes: 0, refresh_failures: 0, logouts: 0, discoveries: 0, discovery_failures: 0, userinfo_failures: 0, backchannel_logouts: 0, backchannel_failures: 0, bearer_validations: 0, bearer_failures: 0, revocations: 0, revocation_failures: 0, callback_iss_mismatches: 0 }
    }
}

/// A request rate: `requests` in `secs` seconds.
#[derive(Clone, Copy, Debug, PartialEq, Eq)]
pub struct Rate {
    pub requests: u64,
    pub secs: u64,
}

/// The state of the counters at one moment.
pub struct Snapshot {
    /// Seconds since the start.
    pub uptime_secs: u64,
    pub requests_total: u64,
    pub requests_active: i64,
    pub status_2xx: u64,
    pub status_3xx: u64,
    pub status_4xx: u64,
    pub status_5xx: u64,
    /// Counts per latency bucket: <1ms <10ms <50ms <200ms <1s >=1s
    pub latency: [u64; 6],
    /// Request rates: the partial current window and 1/5/15-min averages.
    pub rate_current: Rate,
    pub rate_1min: Rate,
    pub rate_5min: Rate,
    pub rate_15min: Rate,
    /// Resident set size in KiB; None on non-Linux.
    pub memory_kb: Option<u64>,
    /// Process CPU use in hundredths of a percent.
    pub cpu_hundredths: u16,
    /// Lifetime auth and JWT failure counters.
    pub auth_failures_total: u64,
    pub jwt_failures_total: u64,
    /// Lifetime JWT token-expiry counter (valid sig, past exp).
    pub jwt_expiries_total: u64,
    /// Lifetime JWT issued counter (session cookies issued).
    pub jwt_issued_total: u64,
    /// Failures/expiries/issuances summed over the last hour.
    pub auth_fail_1h: u64,
    pub jwt_fail_1h: u64,
    pub jwt_expiry_1h: u64,
    pub jwt_issued_1h: u64,
    /// HTTP/3 lifetime counters and live gauge.
    pub quic_handshakes_total: u64,
    pub quic_handshake_failures_total: u64,
    pub quic_connections_active: i64,
    pub quic_requests_total: u64,
    /// Outbound h3 (proxy upstream) handshake count.
    pub quic_outbound_handshakes_total: u64,
    pub stream: StreamSnap,
    pub datagram: DatagramSnap,
    pub compression: CompressionSnap,
    pub tls: TlsSnap,
    pub geoip: GeoipSnap,
    pub shutdown: ShutdownSnap,
    pub acme: AcmeSnap,
    pub ocsp: OcspSnap,
    pub lb: LbSnap,
    pub upstream: UpstreamSnap,
    pub rate_limit: RateLimitSnap,
    pub cache: CacheSnap,
    pub oidc: OidcSnap,
    pub http_conns: HttpConnSnap,
    pub fcgi: BackendSnap,
    pub scgi: BackendSnap,
    pub cgi: CgiSnap,
    pub static_files: StaticSnap,
    /// Per-handler-type request breakdown (config order) and per-vhost
    /// breakdown (map order); rendered as tables.
    pub by_handler: Vec<(&'static str, ClassSnapshot)>,
    pub by_vhost: Vec<(String, ClassSnapshot)>,
}

/// The numeral of `n` followed by a unit.
pub open spec fn with_unit(n: int, unit: Seq<char>) -> Seq<char> {
    decimal(n as nat) + unit
}

/// A duration as its two or three leading units, such as "2d 3h 14m",
/// "1h 1m 1s", "45m 30s" or "8s".
pub open spec fn uptime_text(secs: int) -> Seq<char> {
    let d = secs / 86400;
    let h = secs % 86400 / 3600;
    let m = secs % 3600 / 60;
    let s = secs % 60;
    if d > 0 {
        with_unit(d, "d "@) + with_unit(h, "h "@) + with_unit(m, "m"@)
    } else if h > 0 {
        with_unit(h, "h "@) + with_unit(m, "m "@) + with_unit(s, "s"@)
    } else if m > 0 {
        with_unit(m, "m "@) + with_unit(s, "s"@)
    } else {
        with_unit(s, "s"@)
    }
}

fn push_with_unit(out: &mut String, n: u64, unit: &str)
    ensures
        final(out)@ == old(out)@ + with_unit(n as int, unit@),
{
    push_decimal(out, n);
    out.append(unit);
    assert(out@ =~= old(out)@ + with_unit(n as int, unit@));
}

impl Snapshot {
    /// Human-readable uptime: "2d 3h 14m", "45m 30s" or "8s".
    pub fn uptime_human(&self) -> (r: String)
        ensures
            r@ == uptime_text(self.uptime_secs as int),
    {
        let t: u64 = self.uptime_secs;
        let d: u64 = t / 86400;
        let h: u64 = t % 86400 / 3600;
        let m: u64 = t % 3600 / 60;
        let s: u64 = t % 60;
        let mut out = String::new();
        if d > 0 {
            push_with_unit(&mut out, d, "d ");
            push_with_unit(&mut out, h, "h ");
            push_with_unit(&mut out, m, "m");
        } else if h > 0 {
            push_with_unit(&mut out, h, "h ");
            push_with_unit(&mut out, m, "m ");
            push_with_unit(&mut out, s, "s");
        } else if m > 0 {
            push_with_unit(&mut out, m, "m ");
            push_with_unit(&mut out, s, "s");
        } else {
            push_with_unit(&mut out, s, "s");
        }
        assert(out@ =~= uptime_text(self.uptime_secs as int));
        out
    }
}

impl Default for Snapshot {
    /// The snapshot of counters that never moved.
    fn default() -> (r: Self)
        ensures
            r.uptime_secs == 0,
            r.requests_total == 0,
            r.requests_active == 0,
            r.status_2xx == 0,
            r.status_3xx == 0,
            r.status_4xx == 0,
            r.status_5xx == 0,
            forall|i: int| 0 <= i < 6 ==> r.latency@[i] == 0,
            r.rate_current == (Rate { requests: 0, secs: 0 }),
            r.rate_1min == (Rate { requests: 0, secs: 0 }),
            r.rate_5min == (Rate { requests: 0, secs: 0 }),
            r.rate_15min == (Rate { requests: 0, secs: 0 }),
            r.memory_kb is None,
            r.cpu_hundredths == 0,
            r.auth_failures_total == 0,
            r.jwt_failures_total == 0,
            r.jwt_expiries_total == 0,
            r.jwt_issued_total == 0,
            r.auth_fail_1h == 0,
            r.jwt_fail_1h == 0,
            r.jwt_expiry_1h == 0,
            r.jwt_issued_1h == 0,
            r.quic_handshakes_total == 0,
            r.quic_handshake_failures_total == 0,
            r.quic_connections_active == 0,
            r.quic_requests_total == 0,
            r.quic_outbound_handshakes_total == 0,
            r.stream == StreamSnap::zero(),
            r.datagram == DatagramSnap::zero(),
            r.compression == CompressionSnap::zero(),
            r.tls == TlsSnap::zero(),
            r.geoip == GeoipSnap::zero(),
            r.shutdown == ShutdownSnap::zero(),
            r.acme == AcmeSnap::zero(),
            r.ocsp == OcspSnap::zero(),
            r.lb == LbSnap::zero(),
            r.upstream.bytes_in == 0,
            r.upstream.bytes_out == 0,
            r.upstream.connect_errors == 0,
            forall|i: int| 0 <= i < 6 ==> r.upstream.latency@[i] == 0,
            r.rate_limit == RateLimitSnap::zero(),
            r.cache == CacheSnap::zero(),
            r.oidc == OidcSnap::zero(),
            r.http_conns == HttpConnSnap::zero(),
            r.fcgi == BackendSnap::zero(),
            r.scgi == BackendSnap::zero(),
            r.cgi == CgiSnap::zero(),
            r.static_files == StaticSnap::zero(),
            r.by_handler@.len() == 0,
            r.by_vhost@.len() == 0,
    {
        Snapshot {
            uptime_secs: 0,
            requests_total: 0,
            requests_active: 0,
            status_2xx: 0,
            status_3xx: 0,
            status_4xx: 0,
            status_5xx: 0,
            latency: [0, 0, 0, 0, 0, 0],
            rate_current: Rate { requests: 0, secs: 0 },
            rate_1min: Rate { requests: 0, secs: 0 },
            rate_5min: Rate { requests: 0, secs: 0 },
            rate_15min: Rate { requests: 0, secs: 0 },
            memory_kb: None,
            cpu_hundredths: 0,
            auth_failures_total: 0,
            jwt_failures_total: 0,
            jwt_expiries_total: 0,
            jwt_issued_total: 0,
            auth_fail_1h: 0,
            jwt_fail_1h: 0,
            jwt_expiry_1h: 0,
            jwt_issued_1h: 0,
            quic_handshakes_total: 0,
            quic_handshake_failures_total: 0,
            quic_connections_active: 0,
            quic_requests_total: 0,
            quic_outbound_handshakes_total: 0,
            stream: StreamSnap::default(),
            datagram: DatagramSnap::default(),
            compression: CompressionSnap::default(),
            tls: TlsSnap::default(),
            geoip: GeoipSnap::default(),
            shutdown: ShutdownSnap::default(),
            acme: AcmeSnap::default(),
            ocsp: OcspSnap::default(),
            lb: LbSnap::default(),
            upstream: UpstreamSnap::default(),
            rate_limit: RateLimitSnap::default(),
            cache: CacheSnap::default(),
            oidc: OidcSnap::default(),
            http_conns: HttpConnSnap::default(),
            fcgi: BackendSnap::default(),
            scgi: BackendSnap::default(),
            cgi: CgiSnap::default(),
            static_files: StaticSnap::default(),
            by_handler: Vec::new(),
            by_vhost: Vec::new(),
        }
    }
}

/// The series of one window, oldest slot first.
pub struct SparklineData {
    pub step_secs: u64,
    /// Request rate per slot.
    pub req_rate: Vec<Rate>,
    /// Memory in KiB; `None` where none was sampled.
    pub mem_kb: Vec<Option<u32>>,
    /// CPU use in hundredths of a percent.
    pub cpu_pct: Vec<u32>,
    /// Failed authentications per slot.
    pub auth_fail: Vec<u32>,
    /// JWT bad-signature failures per slot.
    pub jwt_fail: Vec<u32>,
    /// JWT token expiries per slot.
    pub jwt_expiry: Vec<u32>,
    /// JWT session cookies issued per slot.
    pub jwt_issued: Vec<u32>,
    /// 4xx responses per slot.
    pub err4xx: Vec<u32>,
    /// 5xx responses per slot.
    pub err5xx: Vec<u32>,
    /// Requests in flight (gauge) per slot.
    pub active: Vec<u32>,
}

} // verus!
