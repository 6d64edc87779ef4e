//! Request counters, per-status-class tallies, latency histogram, and a
//! multi-resolution ring archive for sparklines and top-path queries.
//!
//! Four archives are kept:
//!   fine    5-second slots  x 720  = 60 minutes
//!   minute  60-second slots x 1440 = 24 hours
//!   hourly  1-hour slots    x 720  = 30 days
//!   daily   1-day slots     x 365  = 1 year
//!
//! A coarser archive is filled by consolidating the finer one.
pub mod archive;
pub mod counters;
pub mod history;
pub mod laws;
pub mod meaning;
pub mod paths;
pub mod period;
pub mod procfs;
pub mod query;
pub mod snapshot;
pub mod tallies;
pub mod tick;

use crate::strmap::{keys_distinct, pairs_of, StrMap};
use archive::{total, Ring, Series, Slot};
use counters::{
    bucket_of, latency_bucket, plus_if, ClassCounters, ClassSnapshot, HandlerKind,
    HANDLER_KIND_ALL,
};
use history::{Baseline, CoarseArchive, FineHistory};
use paths::{clippable, clipped, with_hit, PathData};
use period::{DAILY_SLOTS, FINE_SLOTS, HOURLY_SLOTS, MINUTE_SLOTS, WINDOW_SECS};
use snapshot::{
    AcmeSnap, BackendSnap, CacheSnap, CgiSnap, CompressionSnap, DatagramSnap, GeoipSnap,
    HttpConnSnap, LbSnap, OcspSnap, OidcSnap, Rate, RateLimitSnap, ShutdownSnap, Snapshot,
    StaticSnap, StreamSnap, TlsSnap, UpstreamSnap,
};
use vstd::prelude::*;

verus! {

/// Per-handler-type and per-vhost request breakdowns.
pub type ClassSnapshots = (Vec<(&'static str, ClassSnapshot)>, Vec<(String, ClassSnapshot)>);

pub struct Metrics {
    /// Counters incremented per request, modulo 2^64 as all counters here.
    pub requests_total: u64,
    pub requests_active: i64,
    pub status_2xx: u64,
    pub status_3xx: u64,
    pub status_4xx: u64,
    pub status_5xx: u64,
    /// Latency histogram: <1ms <10ms <50ms <200ms <1s >=1s
    pub latency: [u64; 6],
    /// Auth and JWT failure counters; deltas written to archives each tick.
    pub auth_failures: u64,
    /// JWT bad-signature failures (wrong kid, malformed, bad sig).
    pub jwt_failures: u64,
    /// JWT valid-signature but expired tokens.
    pub jwt_expiries: u64,
    /// JWT session cookies successfully issued.
    pub jwt_issued: u64,
    /// OIDC refresh-token exchanges that returned a fresh ID token
    /// (and therefore extended the user's session without a redirect).
    pub oidc_refreshes: u64,
    /// OIDC refresh attempts the IdP rejected; typically means the
    /// session was revoked or the refresh token expired.
    pub oidc_refresh_failures: u64,
    /// Total successful hits on the OIDC logout endpoint, whether
    /// they redirected through the IdP or fell back to local-only.
    pub oidc_logouts: u64,
    /// Successful OIDC discoveries (initial + periodic refreshes).
    pub oidc_discoveries: u64,
    /// Failed OIDC discovery attempts (network, parse, or unreachable
    /// issuer).  A failing initial discovery is retried; failures
    /// during periodic refresh leave the previous client in place.
    pub oidc_discovery_failures: u64,
    /// /userinfo fetches that failed after login; the login still
    /// succeeds with the ID-token claim values as fallback.
    pub oidc_userinfo_failures: u64,
    /// Back-channel logout tokens that successfully validated and
    /// were applied (regardless of how many sessions matched).
    pub oidc_backchannel_logouts: u64,
    /// Back-channel logout requests rejected at any validation
    /// stage: bad form body, bad JWT, bad signature, bad claim, or
    /// replayed jti.
    pub oidc_backchannel_failures: u64,
    /// Bearer (resource-server) tokens that successfully verified.
    /// Counts both fresh validations and would-be-fresh calls -- the
    /// LRU cache hit is separately surfaced as a debug log path.
    pub oidc_bearer_validations: u64,
    /// Bearer tokens rejected at any validation stage: malformed
    /// JWT, bad signature, wrong issuer/audience, expired, etc.
    pub oidc_bearer_failures: u64,
    /// RFC 7009 refresh-token revocations the IdP accepted.
    pub oidc_revocations: u64,
    /// Revocation attempts the IdP rejected (network, 4xx, etc.).
    /// Logged but otherwise harmless: revocation is defence-in-depth.
    pub oidc_revocation_failures: u64,
    /// Authorization-response callbacks rejected because the
    /// returned `iss` parameter (RFC 9207) did not match our
    /// configured issuer.  Mix-up attack mitigation.
    pub oidc_callback_iss_mismatches: u64,
    /// HTTP/3 counters.  Kept separate from the overall request counters
    /// so operators can see the protocol split on the status page.
    pub quic_handshakes_total: u64,
    pub quic_handshake_failures_total: u64,
    pub quic_connections_active: i64,
    pub quic_requests_total: u64,
    /// Outbound HTTP/3: counts QUIC handshakes initiated by the reverse-
    /// proxy handler.  An h3-pool reuse satisfies a request without
    /// incrementing this counter, so the ratio of requests / handshakes
    /// is a direct read of pool effectiveness.
    pub quic_outbound_handshakes_total: u64,
    /// Reverse-proxy load-balancer counters.  All are zero when no
    /// proxy location uses a multi-upstream pool.
    pub proxy_lb_picks: u64,
    pub proxy_lb_no_upstream: u64,
    pub proxy_lb_retries: u64,
    pub proxy_lb_ejections: u64,
    pub proxy_lb_health_failures: u64,
    pub proxy_lb_health_recoveries: u64,
    /// Rate-limit counters.  `triggers` increments each time a
    /// request was rejected with 429; `active_keys` is the live
    /// count of bucket entries across every configured rule,
    /// refreshed at every tick.
    pub rate_limit_triggers: u64,
    pub rate_limit_active_keys: u64,
    /// Response-cache counters.  `hits`/`misses` count read-through
    /// outcomes; `stores` counts responses written into the cache;
    /// `bypass` counts cacheable-method responses that were ineligible
    /// (uncacheable directives, oversized, ...); `evictions` counts
    /// entries dropped by LRU or TTL.  `entries`/`bytes` are live
    /// gauges of the shared store, refreshed by the eviction task.
    pub cache_hits: u64,
    pub cache_misses: u64,
    pub cache_stores: u64,
    pub cache_bypass: u64,
    pub cache_evictions: u64,
    /// Stale entries revalidated against the origin (a conditional
    /// request was sent because the cached copy had a validator).
    pub cache_revalidations: u64,
    pub cache_entries: u64,
    pub cache_bytes: u64,
    /// OCSP-stapling: count of background fetches that produced a
    /// valid staple, and count of failures (HTTP / parse / responder
    /// status / no AIA).  Together they bound the freshness of the
    /// staple emitted by each TLS listener.
    pub ocsp_refreshes: u64,
    pub ocsp_refresh_failures: u64,
    /// Datagram-proxy counters.  All zero unless at least one
    /// udp/unix-dgram/unix-seqpacket listener with a `proxy` block
    /// is active.
    pub datagram_flows_active: u64,
    pub datagrams_in_total: u64,
    pub datagrams_out_total: u64,
    pub bytes_in_total: u64,
    pub bytes_out_total: u64,
    /// Reserved for future DTLS origination on datagram L4 proxies:
    /// a payload larger than the negotiated DTLS record size would
    /// be dropped here.  Today the raw datagram path passes payloads
    /// of any size, so this counter stays at zero.
    pub datagrams_dropped_oversize_total: u64,
    pub datagram_flow_create_total: u64,
    pub datagram_flow_evict_total: u64,
    /// TCP stream-proxy counters.  Zero unless a byte-stream
    /// listener with a `proxy` block is active.  `active` is a live
    /// gauge; bytes split client->upstream (in) and upstream->client
    /// (out), matching the datagram-proxy convention.
    pub stream_conns_active: i64,
    pub stream_conns_total: u64,
    pub stream_bytes_in_total: u64,
    pub stream_bytes_out_total: u64,
    /// Response-compression counters.  `responses` counts encoded
    /// bodies; `skipped` counts negotiated-but-not-encoded responses
    /// (too small, incompressible type, already encoded).  bytes_in is
    /// the pre-compression size, bytes_out post; their ratio is the
    /// realised savings.  gzip/brotli split the chosen encoding.
    pub compress_responses_total: u64,
    pub compress_skipped_total: u64,
    pub compress_bytes_in_total: u64,
    pub compress_bytes_out_total: u64,
    pub compress_gzip_total: u64,
    pub compress_brotli_total: u64,
    pub compress_zstd_total: u64,
    /// Inbound TLS handshakes on TCP listeners (the QUIC path has
    /// its own counters).  Lets operators see the TLS success/failure
    /// split that the global request counters hide.
    pub tls_handshakes_total: u64,
    pub tls_handshake_failures_total: u64,
    pub tls_handshake_timeouts_total: u64,
    /// GeoIP lookups performed during policy evaluation; `misses`
    /// are lookups with no country match (private IP, gap in the DB).
    pub geoip_lookups_total: u64,
    pub geoip_lookup_misses_total: u64,
    /// Graceful-shutdown accounting: connections that drained
    /// cleanly vs. those abandoned when the drain deadline fired.
    pub shutdown_drained_total: u64,
    pub shutdown_abandoned_total: u64,
    /// ACME certificate lifecycle events.  Issuances are first-time
    /// acquisitions; renewals are scheduled re-acquisitions.  Failures
    /// are counted separately so a flapping ACME backend is visible.
    pub acme_issuances_total: u64,
    pub acme_issuance_failures_total: u64,
    pub acme_renewals_total: u64,
    pub acme_renewal_failures_total: u64,
    /// Active health-check probe attempts (every probe, not just the
    /// state transitions counted by proxy_lb_health_failures/recoveries).
    pub proxy_lb_health_checks_total: u64,
    /// Per-upstream request-path counters for the reverse proxy.
    /// Bytes are body sizes relayed to/from upstreams; connect_errors
    /// count failures to dial an upstream.  The latency histogram uses
    /// the same bucket boundaries as the global request histogram.
    pub proxy_upstream_bytes_in_total: u64,
    pub proxy_upstream_bytes_out_total: u64,
    pub proxy_upstream_connect_errors_total: u64,
    pub proxy_upstream_latency: [u64; 6],
    /// HTTP connection-level gauge/counter (distinct from
    /// requests_active, which counts in-flight requests, not sockets).
    pub http_conns_active: i64,
    pub http_conns_total: u64,
    /// FastCGI / SCGI / CGI backend handlers.  Each tracks total
    /// requests, errors (connect/protocol/spawn), and a live in-flight
    /// gauge.  CGI additionally splits spawn failures and timeouts.
    pub fcgi_requests_total: u64,
    pub fcgi_errors_total: u64,
    pub fcgi_in_flight: i64,
    pub scgi_requests_total: u64,
    pub scgi_errors_total: u64,
    pub scgi_in_flight: i64,
    pub cgi_requests_total: u64,
    pub cgi_errors_total: u64,
    pub cgi_in_flight: i64,
    pub cgi_spawn_failures_total: u64,
    pub cgi_timeouts_total: u64,
    /// Static-file handler: bytes served, 304 Not Modified hits,
    /// and 206 Partial Content (range) responses.
    pub static_bytes_served_total: u64,
    pub static_not_modified_total: u64,
    pub static_range_total: u64,
    /// Per-handler-type request breakdown.
    pub per_kind: [ClassCounters; 9],
    /// Per-vhost request breakdown.  Keyed by the matched vhost's
    /// config name (bounded cardinality), not the raw Host header.
    pub per_vhost: StrMap<ClassCounters>,
    /// Ring-buffer archives, written by ticks only.
    pub fine: FineHistory,
    pub paths: PathData,
    pub minute: CoarseArchive,
    pub hourly: CoarseArchive,
    pub daily: CoarseArchive,
}

impl Metrics {
    /// The archives have their sizes and are in step.
    pub open spec fn wf(&self) -> bool {
        &&& self.fine.wf()
        &&& self.paths.wf()
        &&& self.minute.wf()
        &&& self.minute.cap() == MINUTE_SLOTS
        &&& self.hourly.wf()
        &&& self.hourly.cap() == HOURLY_SLOTS
        &&& self.daily.wf()
        &&& self.daily.cap() == DAILY_SLOTS
    }

    /// Nothing was counted or archived.
    pub open spec fn is_fresh(&self) -> bool {
        &&& self.requests_total == 0
        &&& self.requests_active == 0
        &&& self.status_2xx == 0
        &&& self.status_3xx == 0
        &&& self.status_4xx == 0
        &&& self.status_5xx == 0
        &&& self.auth_failures == 0
        &&& self.jwt_failures == 0
        &&& self.jwt_expiries == 0
        &&& self.jwt_issued == 0
        &&& self.oidc_refreshes == 0
        &&& self.oidc_refresh_failures == 0
        &&& self.oidc_logouts == 0
        &&& self.oidc_discoveries == 0
        &&& self.oidc_discovery_failures == 0
        &&& self.oidc_userinfo_failures == 0
        &&& self.oidc_backchannel_logouts == 0
        &&& self.oidc_backchannel_failures == 0
        &&& self.oidc_bearer_validations == 0
        &&& self.oidc_bearer_failures == 0
        &&& self.oidc_revocations == 0
        &&& self.oidc_revocation_failures == 0
        &&& self.oidc_callback_iss_mismatches == 0
        &&& self.quic_handshakes_total == 0
        &&& self.quic_handshake_failures_total == 0
        &&& self.quic_connections_active == 0
        &&& self.quic_requests_total == 0
        &&& self.quic_outbound_handshakes_total == 0
        &&& self.proxy_lb_picks == 0
        &&& self.proxy_lb_no_upstream == 0
        &&& self.proxy_lb_retries == 0
        &&& self.proxy_lb_ejections == 0
        &&& self.proxy_lb_health_failures == 0
        &&& self.proxy_lb_health_recoveries == 0
        &&& self.rate_limit_triggers == 0
        &&& self.rate_limit_active_keys == 0
        &&& self.cache_hits == 0
        &&& self.cache_misses == 0
        &&& self.cache_stores == 0
        &&& self.cache_bypass == 0
        &&& self.cache_evictions == 0
        &&& self.cache_revalidations == 0
        &&& self.cache_entries == 0
        &&& self.cache_bytes == 0
        &&& self.ocsp_refreshes == 0
        &&& self.ocsp_refresh_failures == 0
        &&& self.datagram_flows_active == 0
        &&& self.datagrams_in_total == 0
        &&& self.datagrams_out_total == 0
        &&& self.bytes_in_total == 0
        &&& self.bytes_out_total == 0
        &&& self.datagrams_dropped_oversize_total == 0
        &&& self.datagram_flow_create_total == 0
        &&& self.datagram_flow_evict_total == 0
        &&& self.stream_conns_active == 0
        &&& self.stream_conns_total == 0
        &&& self.stream_bytes_in_total == 0
        &&& self.stream_bytes_out_total == 0
        &&& self.compress_responses_total == 0
        &&& self.compress_skipped_total == 0
        &&& self.compress_bytes_in_total == 0
        &&& self.compress_bytes_out_total == 0
        &&& self.compress_gzip_total == 0
        &&& self.compress_brotli_total == 0
        &&& self.compress_zstd_total == 0
        &&& self.tls_handshakes_total == 0
        &&& self.tls_handshake_failures_total == 0
        &&& self.tls_handshake_timeouts_total == 0
        &&& self.geoip_lookups_total == 0
        &&& self.geoip_lookup_misses_total == 0
        &&& self.shutdown_drained_total == 0
        &&& self.shutdown_abandoned_total == 0
        &&& self.acme_issuances_total == 0
        &&& self.acme_issuance_failures_total == 0
        &&& self.acme_renewals_total == 0
        &&& self.acme_renewal_failures_total == 0
        &&& self.proxy_lb_health_checks_total == 0
        &&& self.proxy_upstream_bytes_in_total == 0
        &&& self.proxy_upstream_bytes_out_total == 0
        &&& self.proxy_upstream_connect_errors_total == 0
        &&& self.http_conns_active == 0
        &&& self.http_conns_total == 0
        &&& self.fcgi_requests_total == 0
        &&& self.fcgi_errors_total == 0
        &&& self.fcgi_in_flight == 0
        &&& self.scgi_requests_total == 0
        &&& self.scgi_errors_total == 0
        &&& self.scgi_in_flight == 0
        &&& self.cgi_requests_total == 0
        &&& self.cgi_errors_total == 0
        &&& self.cgi_in_flight == 0
        &&& self.cgi_spawn_failures_total == 0
        &&& self.cgi_timeouts_total == 0
        &&& self.static_bytes_served_total == 0
        &&& self.static_not_modified_total == 0
        &&& self.static_range_total == 0
        &&& forall|i: int| 0 <= i < 6 ==> self.latency@[i] == 0
        &&& forall|i: int| 0 <= i < 6 ==> self.proxy_upstream_latency@[i] == 0
        &&& forall|i: int| 0 <= i < 9 ==> self.per_kind@[i] == ClassCounters::zero()
        &&& self.per_vhost@ == Map::<Seq<char>, ClassCounters>::empty()
        &&& self.fine.last == (Baseline {
            total: 0,
            auth: 0,
            jwt: 0,
            jwt_expiry: 0,
            jwt_issued: 0,
            s4xx: 0,
            s5xx: 0,
            cpu_ticks: 0,
        })
        &&& is_blank(self.fine.ring)
        &&& self.paths.current@ == Map::<Seq<char>, u64>::empty()
        &&& self.paths.total@ == Map::<Seq<char>, u64>::empty()
        &&& forall|i: int| 0 <= i < FINE_SLOTS ==> (#[trigger] self.paths.slots@[i]).pairs().len() == 0
        &&& is_blank(self.minute.ring)
        &&& forall|i: int| 0 <= i < MINUTE_SLOTS ==> (#[trigger] self.minute.paths@[i])@.len() == 0
        &&& is_blank(self.hourly.ring)
        &&& forall|i: int| 0 <= i < HOURLY_SLOTS ==> (#[trigger] self.hourly.paths@[i])@.len() == 0
        &&& is_blank(self.daily.ring)
        &&& forall|i: int| 0 <= i < DAILY_SLOTS ==> (#[trigger] self.daily.paths@[i])@.len() == 0
    }

    pub fn new() -> (r: Self)
        ensures
            r.wf(),
            r.is_fresh(),
            r.paths.bounded(),
    {
        let zero = ClassCounters::new();
        Metrics {
            requests_total: 0,
            requests_active: 0,
            status_2xx: 0,
            status_3xx: 0,
            status_4xx: 0,
            status_5xx: 0,
            latency: [0, 0, 0, 0, 0, 0],
            auth_failures: 0,
            jwt_failures: 0,
            jwt_expiries: 0,
            jwt_issued: 0,
            oidc_refreshes: 0,
            oidc_refresh_failures: 0,
            oidc_logouts: 0,
            oidc_discoveries: 0,
            oidc_discovery_failures: 0,
            oidc_userinfo_failures: 0,
            oidc_backchannel_logouts: 0,
            oidc_backchannel_failures: 0,
            oidc_bearer_validations: 0,
            oidc_bearer_failures: 0,
            oidc_revocations: 0,
            oidc_revocation_failures: 0,
            oidc_callback_iss_mismatches: 0,
            quic_handshakes_total: 0,
            quic_handshake_failures_total: 0,
            quic_connections_active: 0,
            quic_requests_total: 0,
            quic_outbound_handshakes_total: 0,
            proxy_lb_picks: 0,
            proxy_lb_no_upstream: 0,
            proxy_lb_retries: 0,
            proxy_lb_ejections: 0,
            proxy_lb_health_failures: 0,
            proxy_lb_health_recoveries: 0,
            rate_limit_triggers: 0,
            rate_limit_active_keys: 0,
            cache_hits: 0,
            cache_misses: 0,
            cache_stores: 0,
            cache_bypass: 0,
            cache_evictions: 0,
            cache_revalidations: 0,
            cache_entries: 0,
            cache_bytes: 0,
            ocsp_refreshes: 0,
            ocsp_refresh_failures: 0,
            datagram_flows_active: 0,
            datagrams_in_total: 0,
            datagrams_out_total: 0,
            bytes_in_total: 0,
            bytes_out_total: 0,
            datagrams_dropped_oversize_total: 0,
            datagram_flow_create_total: 0,
            datagram_flow_evict_total: 0,
            stream_conns_active: 0,
            stream_conns_total: 0,
            stream_bytes_in_total: 0,
            stream_bytes_out_total: 0,
            compress_responses_total: 0,
            compress_skipped_total: 0,
            compress_bytes_in_total: 0,
            compress_bytes_out_total: 0,
            compress_gzip_total: 0,
            compress_brotli_total: 0,
            compress_zstd_total: 0,
            tls_handshakes_total: 0,
            tls_handshake_failures_total: 0,
            tls_handshake_timeouts_total: 0,
            geoip_lookups_total: 0,
            geoip_lookup_misses_total: 0,
            shutdown_drained_total: 0,
            shutdown_abandoned_total: 0,
            acme_issuances_total: 0,
            acme_issuance_failures_total: 0,
            acme_renewals_total: 0,
            acme_renewal_failures_total: 0,
            proxy_lb_health_checks_total: 0,
            proxy_upstream_bytes_in_total: 0,
            proxy_upstream_bytes_out_total: 0,
            proxy_upstream_connect_errors_total: 0,
            proxy_upstream_latency: [0, 0, 0, 0, 0, 0],
            http_conns_active: 0,
            http_conns_total: 0,
            fcgi_requests_total: 0,
            fcgi_errors_total: 0,
            fcgi_in_flight: 0,
            scgi_requests_total: 0,
            scgi_errors_total: 0,
            scgi_in_flight: 0,
            cgi_requests_total: 0,
            cgi_errors_total: 0,
            cgi_in_flight: 0,
            cgi_spawn_failures_total: 0,
            cgi_timeouts_total: 0,
            static_bytes_served_total: 0,
            static_not_modified_total: 0,
            static_range_total: 0,
            per_kind: [zero, zero, zero, zero, zero, zero, zero, zero, zero],
            per_vhost: StrMap::new(),
            fine: FineHistory::new(),
            paths: PathData::new(),
            minute: CoarseArchive::new(MINUTE_SLOTS),
            hourly: CoarseArchive::new(HOURLY_SLOTS),
            daily: CoarseArchive::new(DAILY_SLOTS),
        }
    }

    /// Counts a hit of a path. No more than `MAX_TRACKED_PATHS` distinct paths
    /// are followed. A path longer than 128 bytes is cut there, which has to
    /// fall between two characters.
    pub fn record_path(&mut self, path: &str)
        requires
            clippable(path@),
        ensures
            final(self).paths.total@ == with_hit(old(self).paths.total@, clipped(path@)),
            final(self).paths.current@ == with_hit(old(self).paths.current@, clipped(path@)),
            final(self).paths.slots == old(self).paths.slots,
            final(self).paths.head == old(self).paths.head,
            *final(self) == (Metrics { paths: final(self).paths, ..*old(self) }),
            old(self).paths.bounded() ==> final(self).paths.bounded(),
    {
        self.paths.record(path);
    }

    /// Counts a completed request. Leaves `requests_active` as it is.
    pub fn record(&mut self, status: u16, latency_ms: u128)
        ensures
            recorded(*old(self), *final(self), status, latency_ms),
    {
        self.requests_total = self.requests_total.wrapping_add(1);
        let class: u16 = status / 100;
        if class == 2 {
            self.status_2xx = self.status_2xx.wrapping_add(1);
        } else if class == 3 {
            self.status_3xx = self.status_3xx.wrapping_add(1);
        } else if class == 4 {
            self.status_4xx = self.status_4xx.wrapping_add(1);
        } else if class == 5 {
            self.status_5xx = self.status_5xx.wrapping_add(1);
        }
        let b: usize = latency_bucket(latency_ms);
        self.latency[b] = self.latency[b].wrapping_add(1);
    }

    /// Counts a completed request in the per-handler-type and per-vhost
    /// breakdowns. `vhost` is the matched vhost's configured name, so the
    /// per-vhost map does not grow with the Host headers that clients send.
    pub fn record_class(&mut self, kind: HandlerKind, vhost: &str, status: u16)
        ensures
            class_recorded(*old(self), *final(self), kind, vhost@, status),
    {
        let at: usize = kind.index();
        let mut k = self.per_kind[at];
        k.record(status);
        self.per_kind[at] = k;
        let mut v = match self.per_vhost.get(vhost) {
            Some(c) => *c,
            None => ClassCounters::new(),
        };
        v.record(status);
        self.per_vhost.insert(vhost.to_owned(), v);
    }

    /// Counts one upstream-response latency in the reverse-proxy histogram.
    pub fn record_proxy_upstream_latency(&mut self, latency_ms: u128)
        ensures
            final(self).proxy_upstream_latency@ == old(self).proxy_upstream_latency@.update(
                bucket_of(latency_ms as int),
                old(self).proxy_upstream_latency@[bucket_of(latency_ms as int)].wrapping_add(1),
            ),
            *final(self) == (Metrics {
                proxy_upstream_latency: final(self).proxy_upstream_latency,
                ..*old(self)
            }),
    {
        let b: usize = latency_bucket(latency_ms);
        self.proxy_upstream_latency[b] = self.proxy_upstream_latency[b].wrapping_add(1);
    }

    /// The per-handler-type breakdown in the order of the kinds, and the
    /// per-vhost breakdown in the order of first sight.
    pub fn class_snapshots(&self) -> (r: ClassSnapshots)
        ensures
            kinds_listed(self.per_kind@, r.0@),
            vhosts_listed(self.per_vhost, r.1@),
    {
        let mut by_kind: Vec<(&'static str, ClassSnapshot)> = Vec::new();
        let mut i: usize = 0;
        while i < 9
            invariant
                i <= 9,
                by_kind@.len() == i,
                forall|j: int|
                    0 <= j < i ==> (#[trigger] by_kind@[j]).0@ == HANDLER_KIND_ALL@[j].name()
                        && by_kind@[j].1 == self.per_kind@[j].values(),
            decreases 9 - i,
        {
            let kind = HANDLER_KIND_ALL[i];
            assert(HANDLER_KIND_ALL@[i as int].place() == i);
            by_kind.push((kind.label(), self.per_kind[kind.index()].snapshot()));
            i = i + 1;
        }
        let entries = self.per_vhost.entries();
        let n: usize = entries.len();
        let mut by_vhost: Vec<(String, ClassSnapshot)> = Vec::new();
        let mut k: usize = 0;
        while k < n
            invariant
                k <= n,
                n == entries@.len(),
                pairs_of(entries@) == self.per_vhost.pairs(),
                by_vhost@.len() == k,
                forall|j: int|
                    0 <= j < k ==> (#[trigger] by_vhost@[j]).0@ == self.per_vhost.pairs()[j].0
                        && by_vhost@[j].1 == self.per_vhost.pairs()[j].1.values(),
            decreases n - k,
        {
            assert(self.per_vhost.pairs()[k as int] == (entries@[k as int].0@, entries@[k as int].1));
            by_vhost.push((entries[k].0.clone(), entries[k].1.snapshot()));
            k = k + 1;
        }
        (by_kind, by_vhost)
    }

    pub fn inc_active(&mut self)
        ensures
            *final(self) == (Metrics {
                requests_active: old(self).requests_active.wrapping_add(1),
                ..*old(self)
            }),
    {
        self.requests_active = self.requests_active.wrapping_add(1);
    }

    pub fn dec_active(&mut self)
        ensures
            *final(self) == (Metrics {
                requests_active: old(self).requests_active.wrapping_sub(1),
                ..*old(self)
            }),
    {
        self.requests_active = self.requests_active.wrapping_sub(1);
    }

    /// The state of the counters. `uptime_secs` is the time since the start
    /// and `memory_kb` the resident set size, where it is known.
    pub fn snapshot(&self, uptime_secs: u64, memory_kb: Option<u64>) -> (r: Snapshot)
        requires
            self.wf(),
        ensures
            r.uptime_secs == uptime_secs,
            r.memory_kb == memory_kb,
            r.requests_total == self.requests_total,
            r.requests_active == self.requests_active,
            r.status_2xx == self.status_2xx,
            r.status_3xx == self.status_3xx,
            r.status_4xx == self.status_4xx,
            r.status_5xx == self.status_5xx,
            r.latency == self.latency,
            r.rate_current == (Rate {
                requests: self.requests_total.saturating_sub(self.fine.last.total),
                secs: 5,
            }),
            r.rate_1min.secs == 60,
            r.rate_1min.requests == total(self.fine.ring.recent(12), Series::Req),
            r.rate_5min.secs == 300,
            r.rate_5min.requests == total(self.fine.ring.recent(60), Series::Req),
            r.rate_15min.secs == 900,
            r.rate_15min.requests == total(self.fine.ring.recent(180), Series::Req),
            r.cpu_hundredths == self.fine.ring.recent(1)[0].cpu,
            r.auth_failures_total == self.auth_failures,
            r.jwt_failures_total == self.jwt_failures,
            r.jwt_expiries_total == self.jwt_expiries,
            r.jwt_issued_total == self.jwt_issued,
            r.auth_fail_1h == total(last_hour(self.minute.ring), Series::Auth),
            r.jwt_fail_1h == total(last_hour(self.minute.ring), Series::Jwt),
            r.jwt_expiry_1h == total(last_hour(self.minute.ring), Series::JwtExpiry),
            r.jwt_issued_1h == total(last_hour(self.minute.ring), Series::JwtIssued),
            r.quic_handshakes_total == self.quic_handshakes_total,
            r.quic_handshake_failures_total == self.quic_handshake_failures_total,
            r.quic_connections_active == self.quic_connections_active,
            r.quic_requests_total == self.quic_requests_total,
            r.quic_outbound_handshakes_total == self.quic_outbound_handshakes_total,
            r.stream == (StreamSnap { conns_active: self.stream_conns_active, conns_total: self.stream_conns_total, bytes_in: self.stream_bytes_in_total, bytes_out: self.stream_bytes_out_total }),
            r.datagram == (DatagramSnap { flows_active: self.datagram_flows_active, datagrams_in: self.datagrams_in_total, datagrams_out: self.datagrams_out_total, bytes_in: self.bytes_in_total, bytes_out: self.bytes_out_total, flow_create: self.datagram_flow_create_total, flow_evict: self.datagram_flow_evict_total }),
            r.compression == (CompressionSnap { responses: self.compress_responses_total, skipped: self.compress_skipped_total, bytes_in: self.compress_bytes_in_total, bytes_out: self.compress_bytes_out_total, gzip: self.compress_gzip_total, brotli: self.compress_brotli_total, zstd: self.compress_zstd_total }),
            r.tls == (TlsSnap { handshakes: self.tls_handshakes_total, failures: self.tls_handshake_failures_total, timeouts: self.tls_handshake_timeouts_total }),
            r.geoip == (GeoipSnap { lookups: self.geoip_lookups_total, misses: self.geoip_lookup_misses_total }),
            r.shutdown == (ShutdownSnap { drained: self.shutdown_drained_total, abandoned: self.shutdown_abandoned_total }),
            r.acme == (AcmeSnap { issuances: self.acme_issuances_total, issuance_failures: self.acme_issuance_failures_total, renewals: self.acme_renewals_total, renewal_failures: self.acme_renewal_failures_total }),
            r.ocsp == (OcspSnap { refreshes: self.ocsp_refreshes, refresh_failures: self.ocsp_refresh_failures }),
            r.lb == (LbSnap { picks: self.proxy_lb_picks, no_upstream: self.proxy_lb_no_upstream, retries: self.proxy_lb_retries, ejections: self.proxy_lb_ejections, health_failures: self.proxy_lb_health_failures, health_recoveries: self.proxy_lb_health_recoveries, health_checks: self.proxy_lb_health_checks_total }),
            r.upstream == (UpstreamSnap { bytes_in: self.proxy_upstream_bytes_in_total, bytes_out: self.proxy_upstream_bytes_out_total, connect_errors: self.proxy_upstream_connect_errors_total, latency: self.proxy_upstream_latency }),
            r.rate_limit == (RateLimitSnap { triggers: self.rate_limit_triggers, active_keys: self.rate_limit_active_keys }),
            r.cache == (CacheSnap { hits: self.cache_hits, misses: self.cache_misses, stores: self.cache_stores, bypass: self.cache_bypass, evictions: self.cache_evictions, revalidations: self.cache_revalidations, entries: self.cache_entries, bytes: self.cache_bytes }),
            r.oidc == (OidcSnap { refreshes: self.oidc_refreshes, refresh_failures: self.oidc_refresh_failures, logouts: self.oidc_logouts, discoveries: self.oidc_discoveries, discovery_failures: self.oidc_discovery_failures, userinfo_failures: self.oidc_userinfo_failures, backchannel_logouts: self.oidc_backchannel_logouts, backchannel_failures: self.oidc_backchannel_failures, bearer_validations: self.oidc_bearer_validations, bearer_failures: self.oidc_bearer_failures, revocations: self.oidc_revocations, revocation_failures: self.oidc_revocation_failures, callback_iss_mismatches: self.oidc_callback_iss_mismatches }),
            r.http_conns == (HttpConnSnap { active: self.http_conns_active, total: self.http_conns_total }),
            r.fcgi == (BackendSnap { requests: self.fcgi_requests_total, errors: self.fcgi_errors_total, in_flight: self.fcgi_in_flight }),
            r.scgi == (BackendSnap { requests: self.scgi_requests_total, errors: self.scgi_errors_total, in_flight: self.scgi_in_flight }),
            r.cgi == (CgiSnap { requests: self.cgi_requests_total, errors: self.cgi_errors_total, in_flight: self.cgi_in_flight, spawn_failures: self.cgi_spawn_failures_total, timeouts: self.cgi_timeouts_total }),
            r.static_files == (StaticSnap { bytes_served: self.static_bytes_served_total, not_modified: self.static_not_modified_total, range: self.static_range_total }),
            kinds_listed(self.per_kind@, r.by_handler@),
            vhosts_listed(self.per_vhost, r.by_vhost@),
    {
        let written: u64 = self.minute.ring.written;
        let hour: usize = if written < 60 {
            written as usize
        } else {
            60
        };
        let (by_handler, by_vhost) = self.class_snapshots();
        Snapshot {
            uptime_secs,
            requests_total: self.requests_total,
            requests_active: self.requests_active,
            status_2xx: self.status_2xx,
            status_3xx: self.status_3xx,
            status_4xx: self.status_4xx,
            status_5xx: self.status_5xx,
            latency: self.latency,
            rate_current: Rate {
                requests: self.requests_total.saturating_sub(self.fine.last.total),
                secs: WINDOW_SECS,
            },
            rate_1min: Rate { requests: self.fine.window_req(12), secs: 12 * WINDOW_SECS },
            rate_5min: Rate { requests: self.fine.window_req(60), secs: 60 * WINDOW_SECS },
            rate_15min: Rate { requests: self.fine.window_req(180), secs: 180 * WINDOW_SECS },
            memory_kb,
            cpu_hundredths: self.fine.ring.latest().cpu,
            auth_failures_total: self.auth_failures,
            jwt_failures_total: self.jwt_failures,
            jwt_expiries_total: self.jwt_expiries,
            jwt_issued_total: self.jwt_issued,
            auth_fail_1h: self.minute.ring.window(Series::Auth, hour),
            jwt_fail_1h: self.minute.ring.window(Series::Jwt, hour),
            jwt_expiry_1h: self.minute.ring.window(Series::JwtExpiry, hour),
            jwt_issued_1h: self.minute.ring.window(Series::JwtIssued, hour),
            quic_handshakes_total: self.quic_handshakes_total,
            quic_handshake_failures_total: self.quic_handshake_failures_total,
            quic_connections_active: self.quic_connections_active,
            quic_requests_total: self.quic_requests_total,
            quic_outbound_handshakes_total: self.quic_outbound_handshakes_total,
            stream: self.stream_snap(),
            datagram: self.datagram_snap(),
            compression: self.compression_snap(),
            tls: self.tls_snap(),
            geoip: self.geoip_snap(),
            shutdown: self.shutdown_snap(),
            acme: self.acme_snap(),
            ocsp: self.ocsp_snap(),
            lb: self.lb_snap(),
            upstream: self.upstream_snap(),
            rate_limit: self.rate_limit_snap(),
            cache: self.cache_snap(),
            oidc: self.oidc_snap(),
            http_conns: HttpConnSnap {
                active: self.http_conns_active,
                total: self.http_conns_total,
            },
            fcgi: BackendSnap {
                requests: self.fcgi_requests_total,
                errors: self.fcgi_errors_total,
                in_flight: self.fcgi_in_flight,
            },
            scgi: BackendSnap {
                requests: self.scgi_requests_total,
                errors: self.scgi_errors_total,
                in_flight: self.scgi_in_flight,
            },
            cgi: CgiSnap {
                requests: self.cgi_requests_total,
                errors: self.cgi_errors_total,
                in_flight: self.cgi_in_flight,
                spawn_failures: self.cgi_spawn_failures_total,
                timeouts: self.cgi_timeouts_total,
            },
            static_files: StaticSnap {
                bytes_served: self.static_bytes_served_total,
                not_modified: self.static_not_modified_total,
                range: self.static_range_total,
            },
            by_handler,
            by_vhost,
        }
    }

    fn stream_snap(&self) -> (r: StreamSnap)
        ensures
            r == (StreamSnap { conns_active: self.stream_conns_active, conns_total: self.stream_conns_total, bytes_in: self.stream_bytes_in_total, bytes_out: self.stream_bytes_out_total }),
    {
        StreamSnap {
            conns_active: self.stream_conns_active,
            conns_total: self.stream_conns_total,
            bytes_in: self.stream_bytes_in_total,
            bytes_out: self.stream_bytes_out_total,
        }
    }

    fn datagram_snap(&self) -> (r: DatagramSnap)
        ensures
            r == (DatagramSnap { flows_active: self.datagram_flows_active, datagrams_in: self.datagrams_in_total, datagrams_out: self.datagrams_out_total, bytes_in: self.bytes_in_total, bytes_out: self.bytes_out_total, flow_create: self.datagram_flow_create_total, flow_evict: self.datagram_flow_evict_total }),
    {
        DatagramSnap {
            flows_active: self.datagram_flows_active,
            datagrams_in: self.datagrams_in_total,
            datagrams_out: self.datagrams_out_total,
            bytes_in: self.bytes_in_total,
            bytes_out: self.bytes_out_total,
            flow_create: self.datagram_flow_create_total,
            flow_evict: self.datagram_flow_evict_total,
        }
    }

    fn compression_snap(&self) -> (r: CompressionSnap)
        ensures
            r == (CompressionSnap { responses: self.compress_responses_total, skipped: self.compress_skipped_total, bytes_in: self.compress_bytes_in_total, bytes_out: self.compress_bytes_out_total, gzip: self.compress_gzip_total, brotli: self.compress_brotli_total, zstd: self.compress_zstd_total }),
    {
        CompressionSnap {
            responses: self.compress_responses_total,
            skipped: self.compress_skipped_total,
            bytes_in: self.compress_bytes_in_total,
            bytes_out: self.compress_bytes_out_total,
            gzip: self.compress_gzip_total,
            brotli: self.compress_brotli_total,
            zstd: self.compress_zstd_total,
        }
    }

    fn tls_snap(&self) -> (r: TlsSnap)
        ensures
            r == (TlsSnap { handshakes: self.tls_handshakes_total, failures: self.tls_handshake_failures_total, timeouts: self.tls_handshake_timeouts_total }),
    {
        TlsSnap {
            handshakes: self.tls_handshakes_total,
            failures: self.tls_handshake_failures_total,
            timeouts: self.tls_handshake_timeouts_total,
        }
    }

    fn geoip_snap(&self) -> (r: GeoipSnap)
        ensures
            r == (GeoipSnap { lookups: self.geoip_lookups_total, misses: self.geoip_lookup_misses_total }),
    {
        GeoipSnap {
            lookups: self.geoip_lookups_total,
            misses: self.geoip_lookup_misses_total,
        }
    }

    fn shutdown_snap(&self) -> (r: ShutdownSnap)
        ensures
            r == (ShutdownSnap { drained: self.shutdown_drained_total, abandoned: self.shutdown_abandoned_total }),
    {
        ShutdownSnap {
            drained: self.shutdown_drained_total,
            abandoned: self.shutdown_abandoned_total,
        }
    }

    fn acme_snap(&self) -> (r: AcmeSnap)
        ensures
            r == (AcmeSnap { issuances: self.acme_issuances_total, issuance_failures: self.acme_issuance_failures_total, renewals: self.acme_renewals_total, renewal_failures: self.acme_renewal_failures_total }),
    {
        AcmeSnap {
            issuances: self.acme_issuances_total,
            issuance_failures: self.acme_issuance_failures_total,
            renewals: self.acme_renewals_total,
            renewal_failures: self.acme_renewal_failures_total,
        }
    }

    fn ocsp_snap(&self) -> (r: OcspSnap)
        ensures
            r == (OcspSnap { refreshes: self.ocsp_refreshes, refresh_failures: self.ocsp_refresh_failures }),
    {
        OcspSnap {
            refreshes: self.ocsp_refreshes,
            refresh_failures: self.ocsp_refresh_failures,
        }
    }

    fn lb_snap(&self) -> (r: LbSnap)
        ensures
            r == (LbSnap { picks: self.proxy_lb_picks, no_upstream: self.proxy_lb_no_upstream, retries: self.proxy_lb_retries, ejections: self.proxy_lb_ejections, health_failures: self.proxy_lb_health_failures, health_recoveries: self.proxy_lb_health_recoveries, health_checks: self.proxy_lb_health_checks_total }),
    {
        LbSnap {
            picks: self.proxy_lb_picks,
            no_upstream: self.proxy_lb_no_upstream,
            retries: self.proxy_lb_retries,
            ejections: self.proxy_lb_ejections,
            health_failures: self.proxy_lb_health_failures,
            health_recoveries: self.proxy_lb_health_recoveries,
            health_checks: self.proxy_lb_health_checks_total,
        }
    }

    fn upstream_snap(&self) -> (r: UpstreamSnap)
        ensures
            r == (UpstreamSnap { bytes_in: self.proxy_upstream_bytes_in_total, bytes_out: self.proxy_upstream_bytes_out_total, connect_errors: self.proxy_upstream_connect_errors_total, latency: self.proxy_upstream_latency }),
    {
        UpstreamSnap {
            bytes_in: self.proxy_upstream_bytes_in_total,
            bytes_out: self.proxy_upstream_bytes_out_total,
            connect_errors: self.proxy_upstream_connect_errors_total,
            latency: self.proxy_upstream_latency,
        }
    }

    fn rate_limit_snap(&self) -> (r: RateLimitSnap)
        ensures
            r == (RateLimitSnap { triggers: self.rate_limit_triggers, active_keys: self.rate_limit_active_keys }),
    {
        RateLimitSnap {
            triggers: self.rate_limit_triggers,
            active_keys: self.rate_limit_active_keys,
        }
    }

    fn cache_snap(&self) -> (r: CacheSnap)
        ensures
            r == (CacheSnap { hits: self.cache_hits, misses: self.cache_misses, stores: self.cache_stores, bypass: self.cache_bypass, evictions: self.cache_evictions, revalidations: self.cache_revalidations, entries: self.cache_entries, bytes: self.cache_bytes }),
    {
        CacheSnap {
            hits: self.cache_hits,
            misses: self.cache_misses,
            stores: self.cache_stores,
            bypass: self.cache_bypass,
            evictions: self.cache_evictions,
            revalidations: self.cache_revalidations,
            entries: self.cache_entries,
            bytes: self.cache_bytes,
        }
    }

    fn oidc_snap(&self) -> (r: OidcSnap)
        ensures
            r == (OidcSnap { refreshes: self.oidc_refreshes, refresh_failures: self.oidc_refresh_failures, logouts: self.oidc_logouts, discoveries: self.oidc_discoveries, discovery_failures: self.oidc_discovery_failures, userinfo_failures: self.oidc_userinfo_failures, backchannel_logouts: self.oidc_backchannel_logouts, backchannel_failures: self.oidc_backchannel_failures, bearer_validations: self.oidc_bearer_validations, bearer_failures: self.oidc_bearer_failures, revocations: self.oidc_revocations, revocation_failures: self.oidc_revocation_failures, callback_iss_mismatches: self.oidc_callback_iss_mismatches }),
    {
        OidcSnap {
            refreshes: self.oidc_refreshes,
            refresh_failures: self.oidc_refresh_failures,
            logouts: self.oidc_logouts,
            discoveries: self.oidc_discoveries,
            discovery_failures: self.oidc_discovery_failures,
            userinfo_failures: self.oidc_userinfo_failures,
            backchannel_logouts: self.oidc_backchannel_logouts,
            backchannel_failures: self.oidc_backchannel_failures,
            bearer_validations: self.oidc_bearer_validations,
            bearer_failures: self.oidc_bearer_failures,
            revocations: self.oidc_revocations,
            revocation_failures: self.oidc_revocation_failures,
            callback_iss_mismatches: self.oidc_callback_iss_mismatches,
        }
    }
}

/// What counting a completed request does: `a` before and `b` after.
pub open spec fn recorded(a: Metrics, b: Metrics, status: u16, latency_ms: u128) -> bool {
    let bucket = bucket_of(latency_ms as int);
    &&& b.latency@ == a.latency@.update(bucket, a.latency@[bucket].wrapping_add(1))
    &&& b == (Metrics {
        requests_total: a.requests_total.wrapping_add(1),
        status_2xx: plus_if(a.status_2xx, 200 <= status < 300),
        status_3xx: plus_if(a.status_3xx, 300 <= status < 400),
        status_4xx: plus_if(a.status_4xx, 400 <= status < 500),
        status_5xx: plus_if(a.status_5xx, 500 <= status < 600),
        latency: b.latency,
        ..a
    })
}

/// What counting a request in the breakdowns does: `a` before and `b` after.
pub open spec fn class_recorded(
    a: Metrics,
    b: Metrics,
    kind: HandlerKind,
    vhost: Seq<char>,
    status: u16,
) -> bool {
    &&& b.per_kind@ == a.per_kind@.update(kind.place(), a.per_kind@[kind.place()].with(status))
    &&& b.per_vhost@ == a.per_vhost@.insert(vhost, vhost_tally(a.per_vhost@, vhost).with(status))
    &&& b == (Metrics { per_kind: b.per_kind, per_vhost: b.per_vhost, ..a })
}

/// A ring that was never written to.
pub open spec fn is_blank(ring: Ring) -> bool {
    &&& ring.head == 0
    &&& ring.written == 0
    &&& forall|i: int| 0 <= i < ring.cap() ==> ring.slots@[i] == Slot::zero()
}

/// The tally of a vhost, zero for one not seen yet.
pub open spec fn vhost_tally(m: Map<Seq<char>, ClassCounters>, vhost: Seq<char>) -> ClassCounters {
    if m.dom().contains(vhost) {
        m[vhost]
    } else {
        ClassCounters::zero()
    }
}

/// `r` lists the label and values of every kind, in the order of the kinds.
pub open spec fn kinds_listed(
    kinds: Seq<ClassCounters>,
    r: Seq<(&'static str, ClassSnapshot)>,
) -> bool {
    &&& r.len() == 9
    &&& forall|i: int|
        0 <= i < 9 ==> (#[trigger] r[i]).0@ == HANDLER_KIND_ALL@[i].name() && r[i].1
            == kinds[i].values()
}

/// `r` lists the name and values of every vhost once, in the order of first sight.
pub open spec fn vhosts_listed(
    vhosts: StrMap<ClassCounters>,
    r: Seq<(String, ClassSnapshot)>,
) -> bool {
    &&& keys_distinct(vhosts.pairs())
    &&& r.len() == vhosts.pairs().len()
    &&& forall|i: int|
        0 <= i < r.len() ==> (#[trigger] r[i]).0@ == vhosts.pairs()[i].0 && r[i].1
            == vhosts.pairs()[i].1.values()
}

/// The slots of the last hour in the minute archive, as far as it reaches.
pub open spec fn last_hour(ring: Ring) -> Seq<Slot> {
    ring.recent(
        if ring.written < 60 {
            ring.written as int
        } else {
            60
        },
    )
}

} // verus!
