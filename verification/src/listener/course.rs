//! What a listener does at each event, and what it tells of its peers.
use crate::decimal::decimal;
use crate::headers::first_value;
use crate::ip::{ip_text, IpView, SocketAddr};
use crate::listener::datagram::{flow_pairs, ClientKey, ClientView, Flow, FlowTable};
use crate::listener::dispatch::{advanced, arrived, Event, Phase, Progress, RouteFacts};
use crate::listener::http::{
    accept_action, conn_behind, conn_due, conn_ended, conn_next, conn_opened, conn_settings,
    first_request_limit, handshake_counted, is_awaited, tighter, AcceptEvent, ConnAction,
    ConnEvent, ConnPhase, ConnSetup, Connection, Handshake, Timeouts,
};
use crate::listener::quic::{
    added_host, answer_action, body_next, drain_behind, quic_action, quic_ended,
    quic_handshake_counted, AnswerEvent, BodyEvent, BodyFrame, DrainStep, H3RequestBody, QuicEvent,
};
use crate::listener::service::intercept::{Intercept, InterceptView};
use crate::listener::service::policy::{Verdict, VerdictView};
use crate::listener::socket::{
    accepts_streams, addr_text, bind_plan, is_trusted, net_has, octets_value, peer_behind, peer_ip,
    peer_text, peer_view, proxied_peer, segments_value, AddrLocation, BindPlan, BoundAddr, IpNet,
    PeerAddr,
};
use crate::listener::stream::{
    due, label, name_of, stream_copied, stream_ended, stream_header, stream_next, stream_opened,
    upstream_plan, StreamEvent, StreamPhase, StreamSetup, UpstreamName, UpstreamPlan,
};
use crate::metrics::Metrics;
use crate::path::path_in;
use crate::proxy_proto::{
    proxy_header, v1_unknown_header, v2_unix_header, v2_unspec_header, AddrView, ParseError,
    ProxyProtocolVersion,
};
use crate::reply::Reply;
use crate::strmap::pairs_map;
use vstd::arithmetic::power2::pow2;
use vstd::prelude::*;

verus! {

/// The timer for headers: the smaller of the two limits that are set, thirty seconds where none
/// is, and none where that is zero. A pause of zero between requests ends the connection behind
/// the first of them.
pub proof fn law_timer_for_headers(t: Timeouts)
    ensures
        ({
            let c = conn_settings(t);
            let h = t.request_header_secs;
            let k = t.keepalive_secs;
            &&& c.keep_alive <==> k != Some(0u64)
            &&& k == Some(0u64) ==> c.header_read_secs is None
            &&& h is None && k is None ==> c.header_read_secs == Some(30u64)
            &&& k is None && h == Some(0u64) ==> c.header_read_secs is None
            &&& h is None && k is Some && k->0 > 0 ==> c.header_read_secs == k
            &&& k is None && h is Some && h->0 > 0 ==> c.header_read_secs == h
            &&& h is Some && k is Some && k->0 > 0 && h->0 == 0 ==> c.header_read_secs is None
            &&& h is Some && k is Some && 0 < h->0 <= k->0 ==> c.header_read_secs == h
            &&& h is Some && k is Some && 0 < k->0 < h->0 ==> c.header_read_secs == k
        }),
        t.request_header_secs is None ==> first_request_limit(t) == Some(30u64),
        t.request_header_secs == Some(0u64) ==> first_request_limit(t) is None,
        t.request_header_secs is Some && t.request_header_secs->0 > 0 ==> first_request_limit(t)
            == t.request_header_secs,
{
}

/// The smaller of two limits that may be missing.
pub proof fn law_smaller_limit(x: u64, y: u64)
    ensures
        tighter(None, None) is None,
        tighter(Some(x), None) == Some(x),
        tighter(None, Some(x)) == Some(x),
        x <= y ==> tighter(Some(x), Some(y)) == Some(x) && tighter(Some(y), Some(x)) == Some(x),
{
}

/// A connection waits for its turn where connections are limited, has its header read where
/// there is one, does its handshake where it is encrypted, and is served, in this order. What
/// fails closes it.
pub proof fn law_turns_of_a_connection(s: ConnSetup)
    ensures
        s.limited ==> conn_due(s, ConnPhase::Permit) is Permit,
        !s.limited && s.reads_header ==> conn_due(s, ConnPhase::Permit) is ReadHeader,
        !s.limited && !s.reads_header && s.tls ==> conn_due(s, ConnPhase::Permit) is Handshake,
        !s.limited && !s.reads_header && !s.tls ==> conn_due(s, ConnPhase::Permit) is Serve,
        s.reads_header ==> conn_behind(s, ConnPhase::Permit, true) is ReadHeader,
        !s.reads_header && s.tls ==> conn_behind(s, ConnPhase::Permit, true) is Handshake,
        !s.reads_header && !s.tls ==> conn_behind(s, ConnPhase::Permit, true) is Serve,
        s.tls ==> conn_behind(s, ConnPhase::ReadHeader, true) is Handshake,
        !s.tls ==> conn_behind(s, ConnPhase::ReadHeader, true) is Serve,
        conn_behind(s, ConnPhase::Handshake, true) is Serve,
        conn_behind(s, ConnPhase::Serve, true) is Closed,
        forall|p: ConnPhase| #[trigger] conn_behind(s, p, false) is Closed,
{
    reveal_with_fuel(conn_due, 4);
}

/// What an open connection does: it is dropped when it has ended or when its first request does
/// not come in time, and winds down once when a shutdown is signalled.
pub proof fn law_events_of_a_connection(c: Connection)
    requires
        c.open,
    ensures
        conn_next(c, ConnEvent::Closed) == (Connection { open: false, ..c }, ConnAction::Drop),
        !c.first_seen ==> conn_next(c, ConnEvent::FirstRequest) == (
            Connection { first_seen: true, ..c },
            ConnAction::Continue,
        ),
        !c.first_seen ==> conn_next(c, ConnEvent::HeaderTimeout).1 is Drop && !conn_next(
            c,
            ConnEvent::HeaderTimeout,
        ).0.open,
        c.first_seen ==> conn_next(c, ConnEvent::FirstRequest) == (c, ConnAction::Continue)
            && conn_next(c, ConnEvent::HeaderTimeout) == (c, ConnAction::Continue),
        !c.graceful ==> conn_next(c, ConnEvent::Shutdown(true)) == (
            Connection { graceful: true, ..c },
            ConnAction::WindDown,
        ),
        c.graceful ==> conn_next(c, ConnEvent::Shutdown(true)) == (c, ConnAction::Continue),
        conn_next(c, ConnEvent::Shutdown(false)) == (c, ConnAction::Continue),
        is_awaited(c, ConnEvent::FirstRequest) <==> !c.first_seen,
        is_awaited(c, ConnEvent::Shutdown(true)) <==> !c.graceful,
{
}

/// A listener serves what it accepts, waits a little behind a failure, and drains when it is
/// told to end.
pub proof fn law_events_of_a_listener(on: bool)
    ensures
        accept_action(AcceptEvent::Accepted) is Serve,
        accept_action(AcceptEvent::Failed) is BackOff,
        accept_action(AcceptEvent::Reaped) is Continue,
        accept_action(AcceptEvent::Shutdown(true)) is Drain,
        accept_action(AcceptEvent::Stop(true)) is Drain,
        accept_action(AcceptEvent::Shutdown(false)) is Continue,
        accept_action(AcceptEvent::Stop(false)) is Continue,
{
}

/// What is counted of connections, streams and handshakes, and nothing else is.
pub proof fn law_connections_are_counted(m: Metrics, up: u64, down: u64)
    ensures
        conn_opened(m) == (Metrics {
            http_conns_total: m.http_conns_total.wrapping_add(1),
            http_conns_active: m.http_conns_active.wrapping_add(1),
            ..m
        }),
        conn_ended(m) == (Metrics {
            http_conns_active: m.http_conns_active.wrapping_sub(1),
            ..m
        }),
        stream_opened(m) == (Metrics {
            stream_conns_total: m.stream_conns_total.wrapping_add(1),
            stream_conns_active: m.stream_conns_active.wrapping_add(1),
            ..m
        }),
        stream_ended(m) == (Metrics {
            stream_conns_active: m.stream_conns_active.wrapping_sub(1),
            ..m
        }),
        stream_copied(m, up, down) == (Metrics {
            stream_bytes_in_total: m.stream_bytes_in_total.wrapping_add(up),
            stream_bytes_out_total: m.stream_bytes_out_total.wrapping_add(down),
            ..m
        }),
        handshake_counted(m, Handshake::Done) == (Metrics {
            tls_handshakes_total: m.tls_handshakes_total.wrapping_add(1),
            ..m
        }),
        handshake_counted(m, Handshake::Failed) == (Metrics {
            tls_handshake_failures_total: m.tls_handshake_failures_total.wrapping_add(1),
            ..m
        }),
        handshake_counted(m, Handshake::TimedOut) == (Metrics {
            tls_handshake_timeouts_total: m.tls_handshake_timeouts_total.wrapping_add(1),
            ..m
        }),
        quic_handshake_counted(m, true) == (Metrics {
            quic_handshakes_total: m.quic_handshakes_total.wrapping_add(1),
            quic_connections_active: m.quic_connections_active.wrapping_add(1),
            ..m
        }),
        quic_handshake_counted(m, false) == (Metrics {
            quic_handshake_failures_total: m.quic_handshake_failures_total.wrapping_add(1),
            ..m
        }),
        quic_ended(m) == (Metrics {
            quic_connections_active: m.quic_connections_active.wrapping_sub(1),
            ..m
        }),
{
}

/// A QUIC client is asked to come again if and only if its address was not validated, it may be
/// asked, and that was not switched off. Everything but a signal to go on ends the listener.
pub proof fn law_events_of_a_quic_listener(
    validated: bool,
    may_retry: bool,
    retry_tokens: Option<bool>,
)
    ensures
        ({
            let a = quic_action(QuicEvent::Incoming { validated, may_retry }, retry_tokens);
            &&& a is Retry || a is Serve
            &&& a is Retry <==> !validated && may_retry && (retry_tokens is None || retry_tokens->0)
        }),
        quic_action(QuicEvent::Shutdown, retry_tokens) is Drain,
        quic_action(QuicEvent::Closed, retry_tokens) is Drain,
        quic_action(QuicEvent::Stop(true), retry_tokens) is Drain,
        quic_action(QuicEvent::Stop(false), retry_tokens) is Continue,
{
}

/// A chunk of a body is shown while all that has come, with it, is no more than the limit, and
/// ends the body otherwise.
pub proof fn law_chunks_of_a_body(b: H3RequestBody, n: u64)
    requires
        !b.done,
    ensures
        ({
            let (c, frame) = body_next(b, BodyEvent::Chunk(n));
            let fits = b.max_body is None || b.seen + n <= b.max_body->0;
            &&& c.max_body == b.max_body
            &&& b.seen + n <= u64::MAX ==> c.seen == b.seen + n
            &&& b.seen + n > u64::MAX ==> c.seen == u64::MAX
            &&& fits ==> frame is Data && !c.done
            &&& !fits && b.seen + n <= u64::MAX ==> frame is End && c.done
            &&& b.seen + n > u64::MAX && b.max_body is Some && b.max_body->0 < u64::MAX ==> frame
                is End && c.done
        }),
        body_next(b, BodyEvent::End) == (H3RequestBody { done: true, ..b }, BodyFrame::End),
        body_next(b, BodyEvent::Failed) == (H3RequestBody { done: true, ..b }, BodyFrame::End),
{
}

/// How an answer is sent, and how connections are drained.
pub proof fn law_steps_of_an_answer(kept: bool, ok: bool)
    ensures
        answer_action(kept, AnswerEvent::Data) is SendData,
        answer_action(true, AnswerEvent::Trailers) is AddTrailers,
        answer_action(false, AnswerEvent::Trailers) is KeepTrailers,
        answer_action(kept, AnswerEvent::Failed) is Abort,
        answer_action(true, AnswerEvent::End) is SendTrailersAndFinish,
        answer_action(false, AnswerEvent::End) is Finish,
        drain_behind(DrainStep::Reject, ok) is WaitIdle,
        drain_behind(DrainStep::WaitIdle, true) is Join,
        drain_behind(DrainStep::WaitIdle, false) is ForceClose,
        drain_behind(DrainStep::ForceClose, ok) is Join,
        drain_behind(DrainStep::Join, ok) is Done,
{
}

/// The steps of a stream come in this order, those that it has: its header, its handshake, the
/// policy, the upstream, the handshake with that, the header ahead, and the bytes.
pub proof fn law_steps_of_a_stream(s: StreamSetup)
    ensures
        ({
            let first = due(s, StreamPhase::ReadHeader);
            let header = stream_next(s, StreamPhase::ReadHeader, StreamEvent::Done);
            let greeted = stream_next(s, StreamPhase::Handshake, StreamEvent::Done);
            let connected = stream_next(s, StreamPhase::Connect, StreamEvent::Done);
            let secured = stream_next(s, StreamPhase::UpstreamHandshake, StreamEvent::Done);
            &&& first is ReadHeader <==> s.reads_header
            &&& !s.reads_header ==> first == header
            &&& header is Handshake <==> s.tls_in
            &&& !s.tls_in ==> header == greeted
            &&& greeted is Judge <==> s.has_policy
            &&& !s.has_policy ==> greeted is Connect
            &&& stream_next(s, StreamPhase::Judge, StreamEvent::Done) is Connect
            &&& connected is UpstreamHandshake <==> s.tls_out
            &&& !s.tls_out ==> connected == secured
            &&& secured is SendHeader <==> s.sends_header
            &&& !s.sends_header ==> secured is Copy
            &&& stream_next(s, StreamPhase::SendHeader, StreamEvent::Done) is Copy
            &&& stream_next(s, StreamPhase::Copy, StreamEvent::Done) is Closed
        }),
{
    reveal_with_fuel(due, 7);
}

/// A shutdown closes a stream that is piped or judged, or that connects and was not judged. It
/// leaves every other alone.
pub proof fn law_shutdown_of_a_stream(s: StreamSetup, p: StreamPhase)
    ensures
        ({
            let closes = p is Copy || p is Judge || p is Closed || p is Connect && !s.has_policy;
            &&& closes ==> stream_next(s, p, StreamEvent::Shutdown) is Closed
            &&& !closes ==> stream_next(s, p, StreamEvent::Shutdown) == p
        }),
{
}

/// What streams are called in the log, and where they go: to an address over TCP, or to the path
/// of a Unix socket, which goes by the name of the own host.
pub proof fn law_upstream_of_a_stream(a: BoundAddr, s: SocketAddr, path: Vec<u8>)
    ensures
        label(false, false) == "stream"@,
        label(true, false) == "stream (TLS)"@,
        label(false, true) == "stream (re-TLS upstream)"@,
        label(true, true) == "stream (TLS → re-TLS)"@,
        a.kind is TcpStream && a.location == AddrLocation::Inet(s) ==> upstream_plan(a) == Some(
            UpstreamPlan::Tcp(s),
        ),
        a.kind is UnixStream && a.location == AddrLocation::Unix(path) ==> upstream_plan(a) == Some(
            UpstreamPlan::Unix(path),
        ),
        upstream_plan(a) is Some ==> a.kind is TcpStream && a.location is Inet || a.kind
            is UnixStream && a.location is Unix,
        name_of(UpstreamPlan::Tcp(s)) == UpstreamName::Address(s.ip),
        name_of(UpstreamPlan::Unix(path)) is Localhost,
{
}

/// The header that is sent ahead of a stream: that of the peer and the address that it came to,
/// or of no address where that is not known; and for a peer of a Unix socket one that says so.
pub proof fn law_header_ahead_of_a_stream(
    v: ProxyProtocolVersion,
    src: SocketAddr,
    dst: AddrView,
    unix: Option<Seq<u8>>,
    path: Seq<u8>,
    local: Option<AddrView>,
)
    ensures
        stream_header(v, PeerAddr::Tcp(src), Some(dst), unix) == proxy_header(v, src@, dst),
        ({
            let none = AddrView {
                ip: IpView::V4(seq![0u8, 0, 0, 0]),
                port: 0,
                flowinfo: 0,
                scope_id: 0,
            };
            stream_header(v, PeerAddr::Tcp(src), None, unix) == proxy_header(v, src@, none)
        }),
        stream_header(ProxyProtocolVersion::V1, PeerAddr::Unix, local, unix) == v1_unknown_header(),
        stream_header(ProxyProtocolVersion::V2, PeerAddr::Unix, local, Some(path))
            == v2_unix_header(None, Some(path)),
        stream_header(ProxyProtocolVersion::V2, PeerAddr::Unix, local, None) == v2_unspec_header(),
{
}

/// A request moves on at these events, and at no others.
pub proof fn law_phases_of_a_request(
    s: Progress,
    known: bool,
    authenticated: bool,
    refresh: bool,
    r: RouteFacts,
)
    ensures
        arrived().phase is Arrive && !arrived().known,
        !arrived().route.has_policy && !arrived().route.needs_country,
        !arrived().route.needs_principal,
        s.phase is Arrive ==> advanced(s, Event::TooLong).phase is Closed && advanced(
            s,
            Event::LetIn,
        ).phase is Intercept,
        s.phase is Intercept ==> advanced(s, Event::Open).phase is Identify && advanced(
            s,
            Event::Answered,
        ).phase is Count && advanced(s, Event::NotReady).phase is Closed,
        s.phase is Identify ==> advanced(s, Event::Identified { known, refresh: true }) == (
        Progress { phase: Phase::Refresh, known, ..s }) && advanced(
            s,
            Event::Identified { known, refresh: false },
        ) == (Progress { phase: Phase::Route, known, ..s }),
        s.phase is Refresh ==> advanced(s, Event::Refreshed { known }) == (Progress {
            phase: Phase::Route,
            known,
            ..s
        }),
        s.phase is Route ==> advanced(s, Event::Unrouted).phase is Finish && advanced(
            s,
            Event::Routed(r),
        ).route == r && advanced(s, Event::Routed(r)).known == s.known,
        s.phase is Route && r.has_policy && r.needs_country ==> advanced(s, Event::Routed(r)).phase
            is Locate,
        s.phase is Route && r.has_policy && !r.needs_country ==> advanced(s, Event::Routed(r)).phase
            is Judge,
        s.phase is Route && !r.has_policy && r.needs_principal && !s.known ==> advanced(
            s,
            Event::Routed(r),
        ).phase is Name,
        s.phase is Route && !r.has_policy && (!r.needs_principal || s.known) ==> advanced(
            s,
            Event::Routed(r),
        ).phase is Limit,
        s.phase is Locate ==> advanced(s, Event::Located).phase is Judge,
        s.phase is Judge ==> advanced(s, Event::Judged { allowed: false, authenticated }).phase
            is Finish,
        s.phase is Judge ==> {
            let next = advanced(s, Event::Judged { allowed: true, authenticated }).phase;
            let unnamed = s.route.needs_principal && !authenticated && !s.known;
            unnamed && next is Name || !unnamed && next is Limit
        },
        s.phase is Name ==> advanced(s, Event::Named).phase is Limit,
        s.phase is Limit ==> advanced(s, Event::Stopped).phase is Finish && advanced(
            s,
            Event::Cleared,
        ).phase is Handle,
        s.phase is Handle ==> advanced(s, Event::Replied).phase is Finish,
        s.phase is Finish ==> advanced(s, Event::Finished).phase is Count,
        s.phase is Count ==> advanced(s, Event::Counted).phase is Closed,
{
}

/// The time for finding and running a handler ends in an answer, from the search for the place
/// to the handler, and counts nowhere else.
pub proof fn law_time_of_a_request(s: Progress)
    ensures
        ({
            let p = s.phase;
            let next = advanced(s, Event::TimedOut).phase;
            if p is Route || p is Locate || p is Judge || p is Name || p is Limit || p is Handle {
                next is Finish
            } else {
                next == p
            }
        }),
{
}

/// A phase is left only at its own events.
pub proof fn law_phases_wait_for_their_events(s: Progress, e: Event)
    requires
        advanced(s, e) != s,
    ensures
        ({
            let p = s.phase;
            ||| p is Arrive && (e is TooLong || e is LetIn)
            ||| p is Intercept && (e is Answered || e is NotReady || e is Open)
            ||| p is Identify && e is Identified
            ||| p is Refresh && e is Refreshed
            ||| p is Route && (e is Unrouted || e is Routed || e is TimedOut)
            ||| p is Locate && (e is Located || e is TimedOut)
            ||| p is Judge && (e is Judged || e is TimedOut)
            ||| p is Name && (e is Named || e is TimedOut)
            ||| p is Limit && (e is Stopped || e is Cleared || e is TimedOut)
            ||| p is Handle && (e is Replied || e is TimedOut)
            ||| p is Finish && e is Finished
            ||| p is Count && e is Counted
        }),
{
}

/// What a peer is called: its address and port, an address of IPv6 in brackets and with its
/// scope where it has one, and a Unix socket by a word. A Unix socket counts as the own host.
pub proof fn law_peer_by_name(
    p: PeerAddr,
    o: Seq<u8>,
    g: Seq<u16>,
    port: u16,
    flowinfo: u32,
    scope_id: u32,
    a: SocketAddr,
)
    ensures
        peer_text(PeerAddr::Unix) == "[unix]"@,
        peer_text(PeerAddr::Tcp(a)) == addr_text(a@),
        peer_ip(PeerAddr::Tcp(a)) == a.ip@,
        peer_ip(PeerAddr::Unix) == IpView::V4(seq![127u8, 0, 0, 1]),
        peer_view(PeerAddr::Tcp(a)) == Some(a@),
        peer_view(PeerAddr::Unix) is None,
        addr_text(AddrView { ip: IpView::V4(o), port, flowinfo, scope_id }) == ip_text(IpView::V4(o))
            + ":"@ + decimal(port as nat),
        addr_text(AddrView { ip: IpView::V6(g), port, flowinfo, scope_id: 0 }) == "["@ + ip_text(
            IpView::V6(g),
        ) + "]:"@ + decimal(port as nat),
        scope_id > 0 ==> addr_text(AddrView { ip: IpView::V6(g), port, flowinfo, scope_id }) == "["@
            + ip_text(IpView::V6(g)) + "%"@ + decimal(scope_id as nat) + "]:"@ + decimal(
            port as nat,
        ),
{
    reveal_strlit(":");
    reveal_strlit("[");
    reveal_strlit("%");
    assert(addr_text(AddrView { ip: IpView::V4(o), port, flowinfo, scope_id }) =~= ip_text(
        IpView::V4(o),
    ) + ":"@ + decimal(port as nat));
    assert(addr_text(AddrView { ip: IpView::V6(g), port, flowinfo, scope_id: 0 }) =~= "["@
        + ip_text(IpView::V6(g)) + "]:"@ + decimal(port as nat));
    if scope_id > 0 {
        assert(addr_text(AddrView { ip: IpView::V6(g), port, flowinfo, scope_id }) =~= "["@
            + ip_text(IpView::V6(g)) + "%"@ + decimal(scope_id as nat) + "]:"@ + decimal(
            port as nat,
        ));
    }
}

/// A socket is bound where its kind and its address go together, and to no other.
pub proof fn law_socket_by_its_kind(a: BoundAddr, s: SocketAddr, path: Vec<u8>)
    ensures
        a.location == AddrLocation::Inet(s) ==> {
            let p = bind_plan(a);
            &&& a.kind is TcpStream ==> p == Some(BindPlan::Tcp(s))
            &&& a.kind is UdpDgram ==> p == Some(BindPlan::Udp(s))
            &&& !(a.kind is TcpStream || a.kind is UdpDgram) ==> p is None
        },
        a.location == AddrLocation::Unix(path) ==> {
            let p = bind_plan(a);
            &&& a.kind is UnixStream ==> p == Some(BindPlan::UnixStream(path))
            &&& a.kind is UnixDgram ==> p == Some(BindPlan::UnixDgram(path))
            &&& a.kind is UnixSeqpacket ==> p == Some(BindPlan::UnixSeqpacket(path))
            &&& a.kind is TcpStream || a.kind is UdpDgram ==> p is None
        },
        a.kind.streams() <==> a.kind is TcpStream || a.kind is UnixStream,
        bind_plan(a) is Some ==> (accepts_streams(bind_plan(a)->0) <==> a.kind is TcpStream || a.kind
            is UnixStream),
{
}

/// The number of an address: its octets are the digits of it to base 256, and its segments
/// those to base 65536.
pub proof fn law_number_of_an_address(o: Seq<u8>, x: u8, s: Seq<u16>, y: u16)
    ensures
        octets_value(Seq::empty()) == 0,
        octets_value(o.push(x)) == octets_value(o) * 256 + x,
        segments_value(Seq::empty()) == 0,
        segments_value(s.push(y)) == segments_value(s) * 65536 + y,
{
    assert(o.push(x).drop_last() =~= o);
    assert(s.push(y).drop_last() =~= s);
}

/// A network holds an address of its own family if and only if both lie in one block of as many
/// addresses as the bits behind the prefix can tell apart. None of the other family.
pub proof fn law_network_is_a_block(n: IpNet, o: Seq<u8>, g: Seq<u16>, k: int)
    ensures
        n.addr@ is V6 ==> !net_has(n, IpView::V4(o)),
        n.addr@ is V4 ==> !net_has(n, IpView::V6(g)),
        n.addr@ is V4 && n.prefix_len <= 32 ==> {
            let size = pow2((32 - n.prefix_len) as nat) as int;
            let base = octets_value(n.addr@->V4_0) as int;
            let v = octets_value(o) as int;
            k * size <= base < (k + 1) * size ==> (net_has(n, IpView::V4(o)) <==> k * size <= v
                < (k + 1) * size)
        },
        n.addr@ is V6 && n.prefix_len <= 128 ==> {
            let size = pow2((128 - n.prefix_len) as nat) as int;
            let base = segments_value(n.addr@->V6_0) as int;
            let v = segments_value(g) as int;
            k * size <= base < (k + 1) * size ==> (net_has(n, IpView::V6(g)) <==> k * size <= v
                < (k + 1) * size)
        },
{
    if n.addr@ is V4 && n.prefix_len <= 32 {
        let bits = (32 - n.prefix_len) as nat;
        vstd::arithmetic::power2::lemma_pow2_pos(bits);
        lemma_block(octets_value(n.addr@->V4_0) as int, pow2(bits) as int, k);
        lemma_block(octets_value(o) as int, pow2(bits) as int, k);
    }
    if n.addr@ is V6 && n.prefix_len <= 128 {
        let bits = (128 - n.prefix_len) as nat;
        vstd::arithmetic::power2::lemma_pow2_pos(bits);
        lemma_block(segments_value(n.addr@->V6_0) as int, pow2(bits) as int, k);
        lemma_block(segments_value(g) as int, pow2(bits) as int, k);
    }
}

/// The block that a number lies in.
proof fn lemma_block(v: int, size: int, k: int)
    requires
        size > 0,
        v >= 0,
    ensures
        v / size == k <==> k * size <= v < (k + 1) * size,
{
    let q = v / size;
    vstd::arithmetic::div_mod::lemma_fundamental_div_mod(v, size);
    assert(q * size <= v < (q + 1) * size) by (nonlinear_arith)
        requires
            v == size * q + v % size,
            0 <= v % size < size,
    ;
    if q < k {
        assert((q + 1) * size <= k * size) by (nonlinear_arith)
            requires
                q < k,
                size > 0,
        ;
    }
    if k < q {
        assert((k + 1) * size <= q * size) by (nonlinear_arith)
            requires
                k < q,
                size > 0,
        ;
    }
}

/// A peer may send a header if and only if no networks are named or one of them holds it. What
/// the header says of the source counts for the peer then, and the peer itself where the header
/// names no addresses. A header that cannot be read, or may not be sent, ends the connection.
pub proof fn law_peer_behind_a_header(
    nets: Seq<IpNet>,
    peer: PeerAddr,
    src: AddrView,
    dst: AddrView,
    e: ParseError,
)
    ensures
        is_trusted(nets, peer_ip(peer)) <==> nets.len() == 0 || exists|i: int|
            0 <= i < nets.len() && net_has(#[trigger] nets[i], peer_ip(peer)),
        is_trusted(nets, peer_ip(peer)) ==> {
            &&& proxied_peer(nets, peer, Ok(Some((src, dst)))) == Some(Some(src))
            &&& proxied_peer(nets, peer, Ok(None)) == Some(peer_view(peer))
            &&& proxied_peer(nets, peer, Err(e)) is None
        },
        !is_trusted(nets, peer_ip(peer)) ==> {
            &&& proxied_peer(nets, peer, Ok(Some((src, dst)))) is None
            &&& proxied_peer(nets, peer, Ok(None)) is None
            &&& proxied_peer(nets, peer, Err(e)) is None
        },
        peer_behind(peer, Ok(Some((src, dst)))) == Some(Some(src)),
        peer_behind(peer, Ok(None)) == Some(peer_view(peer)),
        peer_behind(peer, Err(e)) is None,
{
}

/// Clients and flows by what they hold: a client at a path by the steps of that.
pub proof fn law_flows_by_value(a: SocketAddr, p: Vec<u8>, t: FlowTable, v: Seq<(ClientKey, Flow)>, i: int)
    ensures
        ClientKey::Udp(a)@ == ClientView::Udp(a@),
        ClientKey::UnixPath(p)@ == ClientView::UnixPath(path_in(p@)),
        t@ == pairs_map(t.pairs()),
        flow_pairs(v).len() == v.len(),
        0 <= i < v.len() ==> flow_pairs(v)[i] == (v[i].0@, v[i].1),
{
}

/// Verdicts and interceptions by what they hold.
pub proof fn law_verdicts_by_value(s: String, code: u16, r: Reply)
    ensures
        Verdict::Proceed@ is Proceed,
        Verdict::SendToLogin(s)@ == VerdictView::SendToLogin(s@),
        Verdict::AskCredentials(s)@ == VerdictView::AskCredentials(s@),
        Verdict::Deny(code)@ == VerdictView::Deny(code),
        Verdict::Redirect(s, code)@ == VerdictView::Redirect(s@, code),
        Intercept::Acme(s)@ == InterceptView::Acme(s@),
        Intercept::Health(r)@ == InterceptView::Health(r@),
        Intercept::Jwks@ is Jwks && Intercept::NotReady@ is NotReady && Intercept::Login@ is Login,
        Intercept::Callback@ is Callback && Intercept::Backchannel@ is Backchannel,
        Intercept::WrongMethod@ is WrongMethod && Intercept::Logout@ is Logout,
        Intercept::Open@ is Open,
{
}

/// A request that names no host gets its authority for one, and no other is changed.
pub proof fn law_host_of_a_request(h: Map<Seq<char>, Seq<Seq<u8>>>, authority: Seq<char>)
    ensures
        first_value(h, "host"@) is None ==> added_host(h, Some(authority)) == Some(authority),
        first_value(h, "host"@) is Some ==> added_host(h, Some(authority)) is None,
        added_host(h, None) is None,
{
}

} // verus!
