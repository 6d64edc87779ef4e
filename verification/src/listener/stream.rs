//! Stream proxies: raw bytes piped to an upstream. The course of a connection,
//! which upstream it goes to, and the PROXY header that it sends ahead.
use crate::ip::{IpAddr, IpView, SocketAddr};
use crate::listener::service::policy::PolicyOutcome;
use crate::listener::socket::{AddrLocation, BoundAddr, PeerAddr, SocketKind};
use crate::metrics::Metrics;
use crate::proxy_proto::{
    build_header, build_v1_unknown, build_v2_unix, build_v2_unspec, bytes_of, plain_addr,
    proxy_header, v1_unknown_header, v2_unix_header, v2_unspec_header, AddrView,
    ProxyProtocolVersion,
};
use vstd::prelude::*;

verus! {

/// How a stream proxy is announced.
pub open spec fn label(tls_in: bool, tls_out: bool) -> Seq<char> {
    if tls_in && tls_out {
        "stream (TLS → re-TLS)"@
    } else if tls_in {
        "stream (TLS)"@
    } else if tls_out {
        "stream (re-TLS upstream)"@
    } else {
        "stream"@
    }
}

/// Says how a stream proxy is announced.
pub fn stream_label(tls_in: bool, tls_out: bool) -> (r: &'static str)
    ensures
        r@ == label(tls_in, tls_out),
{
    match (tls_in, tls_out) {
        (true, true) => "stream (TLS → re-TLS)",
        (true, false) => "stream (TLS)",
        (false, true) => "stream (re-TLS upstream)",
        (false, false) => "stream",
    }
}

/// Where a stream proxy connects to.
pub enum UpstreamPlan {
    Tcp(SocketAddr),
    /// The path of a Unix socket, as its bytes.
    Unix(Vec<u8>),
}

/// Where a stream proxy connects to: an address over TCP, or a path over a Unix
/// stream. Other upstreams are not supported.
pub open spec fn upstream_plan(a: BoundAddr) -> Option<UpstreamPlan> {
    match (a.kind, a.location) {
        (SocketKind::UnixStream, AddrLocation::Unix(p)) => Some(UpstreamPlan::Unix(p)),
        (SocketKind::TcpStream, AddrLocation::Inet(s)) => Some(UpstreamPlan::Tcp(s)),
        _ => None,
    }
}

/// Says where a stream proxy connects to.
pub fn stream_upstream(a: BoundAddr) -> (r: Option<UpstreamPlan>)
    ensures
        r == upstream_plan(a),
{
    match (a.kind, a.location) {
        (SocketKind::UnixStream, AddrLocation::Unix(p)) => Some(UpstreamPlan::Unix(p)),
        (SocketKind::TcpStream, AddrLocation::Inet(s)) => Some(UpstreamPlan::Tcp(s)),
        _ => None,
    }
}

/// Whom the certificate of an upstream has to name.
pub enum UpstreamName {
    Address(IpAddr),
    /// The host `localhost`.
    Localhost,
}

/// Whom the certificate of an upstream has to name: its address, and the local
/// host behind a Unix socket.
pub open spec fn name_of(p: UpstreamPlan) -> UpstreamName {
    match p {
        UpstreamPlan::Tcp(a) => UpstreamName::Address(a.ip),
        UpstreamPlan::Unix(_) => UpstreamName::Localhost,
    }
}

/// Says whom the certificate of an upstream has to name.
pub fn upstream_name(p: &UpstreamPlan) -> (r: UpstreamName)
    ensures
        r == name_of(*p),
{
    match p {
        UpstreamPlan::Tcp(a) => UpstreamName::Address(a.ip),
        UpstreamPlan::Unix(_) => UpstreamName::Localhost,
    }
}

/// The address and port that stand for none.
pub open spec fn nowhere() -> AddrView {
    plain_addr(IpView::V4(seq![0u8, 0, 0, 0]), 0)
}

/// The PROXY header that a connection sends ahead: the addresses of a TCP
/// connection; of a Unix connection no addresses in version 1, and the path of
/// the listener, as far as it is known, in version 2.
pub open spec fn stream_header(
    version: ProxyProtocolVersion,
    peer: PeerAddr,
    local: Option<AddrView>,
    local_unix: Option<Seq<u8>>,
) -> Seq<u8> {
    match peer {
        PeerAddr::Tcp(src) => proxy_header(
            version,
            src@,
            match local {
                Some(dst) => dst,
                None => nowhere(),
            },
        ),
        PeerAddr::Unix => match version {
            ProxyProtocolVersion::V1 => v1_unknown_header(),
            ProxyProtocolVersion::V2 => match local_unix {
                Some(path) => v2_unix_header(None, Some(path)),
                None => v2_unspec_header(),
            },
        },
    }
}

/// Writes the PROXY header that a connection sends ahead.
pub fn build_stream_header(
    version: ProxyProtocolVersion,
    peer: PeerAddr,
    local: Option<SocketAddr>,
    local_unix: Option<&[u8]>,
) -> (r: Vec<u8>)
    ensures
        r@ == stream_header(
            version,
            peer,
            match local {
                Some(a) => Some(a@),
                None => None,
            },
            bytes_of(local_unix),
        ),
{
    match peer {
        PeerAddr::Tcp(src) => {
            let dst = match local {
                Some(a) => a,
                None => {
                    let none = SocketAddr::new(IpAddr::V4([0, 0, 0, 0]), 0);
                    assert(none@.ip->V4_0 =~= seq![0u8, 0, 0, 0]);
                    none
                },
            };
            build_header(version, &src, &dst)
        },
        PeerAddr::Unix => match version {
            ProxyProtocolVersion::V1 => build_v1_unknown(),
            ProxyProtocolVersion::V2 => match local_unix {
                Some(path) => build_v2_unix(None, Some(path)),
                None => build_v2_unspec(),
            },
        },
    }
}

// -- The course of a connection --------------------------------------

/// What is left to do for a connection.
#[derive(Clone, Copy, Debug, PartialEq, Eq, Structural)]
pub enum StreamPhase {
    /// Read its PROXY header.
    ReadHeader,
    /// Do its TLS handshake.
    Handshake,
    /// Put it to the access policy.
    Judge,
    /// Connect to the upstream.
    Connect,
    /// Do the TLS handshake with the upstream.
    UpstreamHandshake,
    /// Send the PROXY header ahead.
    SendHeader,
    /// Pipe the bytes.
    Copy,
    /// Nothing.
    Closed,
}

/// How a stream proxy is set up.
#[derive(Clone, Copy, Debug, PartialEq, Eq, Structural)]
pub struct StreamSetup {
    pub reads_header: bool,
    pub tls_in: bool,
    pub has_policy: bool,
    pub tls_out: bool,
    pub sends_header: bool,
}

/// What a step came to.
#[derive(Clone, Copy, Debug, PartialEq, Eq, Structural)]
pub enum StreamEvent {
    /// The step is done.
    Done,
    /// The step failed, or the connection is refused.
    Failed,
    /// A shutdown was signalled.
    Shutdown,
}

/// The first step at or behind a step that the set-up asks for.
pub open spec fn due(s: StreamSetup, p: StreamPhase) -> StreamPhase
    decreases
        match p {
            StreamPhase::ReadHeader => 6int,
            StreamPhase::Handshake => 5,
            StreamPhase::Judge => 4,
            StreamPhase::Connect => 3,
            StreamPhase::UpstreamHandshake => 2,
            StreamPhase::SendHeader => 1,
            _ => 0,
        },
{
    match p {
        StreamPhase::ReadHeader => if s.reads_header {
            p
        } else {
            due(s, StreamPhase::Handshake)
        },
        StreamPhase::Handshake => if s.tls_in {
            p
        } else {
            due(s, StreamPhase::Judge)
        },
        StreamPhase::Judge => if s.has_policy {
            p
        } else {
            StreamPhase::Connect
        },
        StreamPhase::UpstreamHandshake => if s.tls_out {
            p
        } else {
            due(s, StreamPhase::SendHeader)
        },
        StreamPhase::SendHeader => if s.sends_header {
            p
        } else {
            StreamPhase::Copy
        },
        _ => p,
    }
}

/// The step behind a step.
pub open spec fn behind(s: StreamSetup, p: StreamPhase) -> StreamPhase {
    match p {
        StreamPhase::ReadHeader => due(s, StreamPhase::Handshake),
        StreamPhase::Handshake => due(s, StreamPhase::Judge),
        StreamPhase::Judge => StreamPhase::Connect,
        StreamPhase::Connect => due(s, StreamPhase::UpstreamHandshake),
        StreamPhase::UpstreamHandshake => due(s, StreamPhase::SendHeader),
        StreamPhase::SendHeader => StreamPhase::Copy,
        _ => StreamPhase::Closed,
    }
}

/// What follows a step. A shutdown ends a connection before it is judged and
/// while its bytes are piped.
pub open spec fn stream_next(s: StreamSetup, p: StreamPhase, e: StreamEvent) -> StreamPhase {
    match e {
        StreamEvent::Done => behind(s, p),
        StreamEvent::Failed => StreamPhase::Closed,
        StreamEvent::Shutdown => match p {
            StreamPhase::Judge => StreamPhase::Closed,
            StreamPhase::Connect => if s.has_policy {
                p
            } else {
                StreamPhase::Closed
            },
            StreamPhase::Copy => StreamPhase::Closed,
            _ => p,
        },
    }
}

fn first_due(s: StreamSetup, p: StreamPhase) -> (r: StreamPhase)
    ensures
        r == due(s, p),
    decreases
        match p {
            StreamPhase::ReadHeader => 6int,
            StreamPhase::Handshake => 5,
            StreamPhase::Judge => 4,
            StreamPhase::Connect => 3,
            StreamPhase::UpstreamHandshake => 2,
            StreamPhase::SendHeader => 1,
            _ => 0,
        },
{
    match p {
        StreamPhase::ReadHeader => if s.reads_header {
            p
        } else {
            first_due(s, StreamPhase::Handshake)
        },
        StreamPhase::Handshake => if s.tls_in {
            p
        } else {
            first_due(s, StreamPhase::Judge)
        },
        StreamPhase::Judge => if s.has_policy {
            p
        } else {
            StreamPhase::Connect
        },
        StreamPhase::UpstreamHandshake => if s.tls_out {
            p
        } else {
            first_due(s, StreamPhase::SendHeader)
        },
        StreamPhase::SendHeader => if s.sends_header {
            p
        } else {
            StreamPhase::Copy
        },
        _ => p,
    }
}

impl StreamSetup {
    /// The first step of a connection.
    pub fn first(self) -> (r: StreamPhase)
        ensures
            r == due(self, StreamPhase::ReadHeader),
    {
        first_due(self, StreamPhase::ReadHeader)
    }

    /// What follows a step.
    pub fn next(self, p: StreamPhase, e: StreamEvent) -> (r: StreamPhase)
        ensures
            r == stream_next(self, p, e),
    {
        match e {
            StreamEvent::Failed => StreamPhase::Closed,
            StreamEvent::Shutdown => match p {
                StreamPhase::Judge => StreamPhase::Closed,
                StreamPhase::Connect => if self.has_policy {
                    p
                } else {
                    StreamPhase::Closed
                },
                StreamPhase::Copy => StreamPhase::Closed,
                _ => p,
            },
            StreamEvent::Done => match p {
                StreamPhase::ReadHeader => first_due(self, StreamPhase::Handshake),
                StreamPhase::Handshake => first_due(self, StreamPhase::Judge),
                StreamPhase::Judge => StreamPhase::Connect,
                StreamPhase::Connect => first_due(self, StreamPhase::UpstreamHandshake),
                StreamPhase::UpstreamHandshake => first_due(self, StreamPhase::SendHeader),
                StreamPhase::SendHeader => StreamPhase::Copy,
                _ => StreamPhase::Closed,
            },
        }
    }
}

/// What the policy makes of a connection: it goes on only where it is allowed; a
/// redirect means nothing to a raw stream, and refuses it.
pub fn judge_stream(outcome: &PolicyOutcome) -> (r: StreamEvent)
    ensures
        r == if outcome is Allow {
            StreamEvent::Done
        } else {
            StreamEvent::Failed
        },
{
    match outcome {
        PolicyOutcome::Allow => StreamEvent::Done,
        _ => StreamEvent::Failed,
    }
}

// -- Counting --------------------------------------------------------

/// The counters with one more stream connection.
pub open spec fn stream_opened(m: Metrics) -> Metrics {
    Metrics {
        stream_conns_total: m.stream_conns_total.wrapping_add(1),
        stream_conns_active: m.stream_conns_active.wrapping_add(1),
        ..m
    }
}

/// The counters with one live stream connection less.
pub open spec fn stream_ended(m: Metrics) -> Metrics {
    Metrics { stream_conns_active: m.stream_conns_active.wrapping_sub(1), ..m }
}

/// The counters with the bytes of a connection that ended cleanly.
pub open spec fn stream_copied(m: Metrics, to_upstream: u64, to_client: u64) -> Metrics {
    Metrics {
        stream_bytes_in_total: m.stream_bytes_in_total.wrapping_add(to_upstream),
        stream_bytes_out_total: m.stream_bytes_out_total.wrapping_add(to_client),
        ..m
    }
}

/// Counts a new connection.
pub fn record_stream_open(metrics: &mut Metrics)
    ensures
        *final(metrics) == stream_opened(*old(metrics)),
{
    metrics.stream_conns_total = metrics.stream_conns_total.wrapping_add(1);
    metrics.stream_conns_active = metrics.stream_conns_active.wrapping_add(1);
}

/// Counts the end of a connection.
pub fn record_stream_end(metrics: &mut Metrics)
    ensures
        *final(metrics) == stream_ended(*old(metrics)),
{
    metrics.stream_conns_active = metrics.stream_conns_active.wrapping_sub(1);
}

/// Counts the bytes of a connection that ended cleanly.
pub fn record_stream_bytes(metrics: &mut Metrics, to_upstream: u64, to_client: u64)
    ensures
        *final(metrics) == stream_copied(*old(metrics), to_upstream, to_client),
{
    metrics.stream_bytes_in_total = metrics.stream_bytes_in_total.wrapping_add(to_upstream);
    metrics.stream_bytes_out_total = metrics.stream_bytes_out_total.wrapping_add(to_client);
}

// -- Laws ------------------------------------------------------------

/// Opening and ending a connection leaves the number of live ones as it was.
pub proof fn law_streams_are_balanced(m: Metrics)
    ensures
        stream_ended(stream_opened(m)).stream_conns_active == m.stream_conns_active,
{
}

/// How far a connection has come.
pub open spec fn rank(p: StreamPhase) -> int {
    match p {
        StreamPhase::ReadHeader => 0,
        StreamPhase::Handshake => 1,
        StreamPhase::Judge => 2,
        StreamPhase::Connect => 3,
        StreamPhase::UpstreamHandshake => 4,
        StreamPhase::SendHeader => 5,
        StreamPhase::Copy => 6,
        StreamPhase::Closed => 7,
    }
}

/// Every step that is done brings a connection further, and no step that the
/// set-up asks for is left out.
pub proof fn law_steps_come_in_order(s: StreamSetup, p: StreamPhase)
    requires
        p != StreamPhase::Closed,
    ensures
        rank(behind(s, p)) > rank(p),
        s.tls_in && rank(p) < 1 ==> rank(behind(s, p)) <= 1,
        s.has_policy && rank(p) < 2 ==> rank(behind(s, p)) <= 2,
        rank(p) < 3 ==> rank(behind(s, p)) <= 3,
        s.tls_out && rank(p) < 4 ==> rank(behind(s, p)) <= 4,
        s.sends_header && rank(p) < 5 ==> rank(behind(s, p)) <= 5,
        rank(p) < 6 ==> rank(behind(s, p)) <= 6,
{
    reveal_with_fuel(due, 4);
}

/// A connection that is refused, or a step of which fails, is closed.
pub proof fn law_failure_closes(s: StreamSetup, p: StreamPhase)
    ensures
        stream_next(s, p, StreamEvent::Failed) == StreamPhase::Closed,
{
}

} // verus!
