use hyper::header::{HeaderMap, HeaderValue, HOST};
use hypershunt::ip::{parse_ip, Family, IpAddr, SocketAddr};
use hypershunt::listener::datagram::{
    build_upstream, dgram_listener, dgram_step, flow_idle_nanos, forward_in, record_conn_close,
    record_conn_open, record_forwarded, record_inbound, record_reply, reply_goes_on,
    unspecified_for, ClientKey, DgramAction, DgramEvent, DgramListener, DgramUpstream, FlowTable,
    UpstreamEvent,
};
use hypershunt::listener::dispatch::{Event, Phase, Progress, RouteFacts};
use hypershunt::listener::http::{
    accept_step, first_request_secs, header_cap, make_builder, record_conn_end, record_drain,
    settle_handshake, AcceptAction, AcceptEvent, ConnAction, ConnEvent, ConnPhase, ConnSettings,
    ConnSetup, Connection, Handshake, Timeouts, DEFAULT_HEADER_TIMEOUT_SECS,
};
use hypershunt::listener::quic::{
    drain_step, host_to_add, quic_step, record_quic_end, record_quic_handshake, record_quic_request,
    send_step, AnswerAction, AnswerEvent, BodyEvent, BodyFrame, DrainStep, H3RequestBody, QuicAction,
    QuicEvent,
};
use hypershunt::listener::service::policy::PolicyOutcome;
use hypershunt::listener::socket::{
    apply_proxy_proto, bind_socket, trusts, AddrLocation, BindPlan, BoundAddr, IpNet, PeerAddr,
    SocketKind,
};
use hypershunt::listener::stream::{
    build_stream_header, judge_stream, record_stream_bytes, record_stream_end,
    record_stream_open, stream_label, stream_upstream, upstream_name, StreamEvent, StreamPhase,
    StreamSetup, UpstreamName, UpstreamPlan,
};
use hypershunt::metrics::Metrics;
use hypershunt::path::same_path;
use hypershunt::proxy_proto::ProxyProtocolVersion;

fn v4(a: u8, b: u8, c: u8, d: u8, port: u16) -> SocketAddr {
    SocketAddr::new(IpAddr::V4([a, b, c, d]), port)
}

fn cidr(text: &str, family: Family, prefix_len: u8) -> IpNet {
    let chars: Vec<char> = text.chars().collect();
    IpNet { addr: parse_ip(&chars, family).unwrap(), prefix_len }
}

fn ten() -> Vec<IpNet> {
    vec![cidr("10.0.0.0", Family::V4, 8)]
}

fn run_apply_proxy_proto(
    payload: &[u8],
    peer: SocketAddr,
    trusted: &Vec<IpNet>,
    version: ProxyProtocolVersion,
) -> Option<PeerAddr> {
    apply_proxy_proto(payload, version, PeerAddr::Tcp(peer), trusted)
}

#[test]
fn peer_addr_tcp_display() {
    assert_eq!(PeerAddr::Tcp(v4(1, 2, 3, 4, 80)).text(), "1.2.3.4:80");
}

#[test]
fn peer_addr_unix_display() {
    assert_eq!(PeerAddr::Unix.text(), "[unix]");
}

#[test]
fn peer_addr_unix_ip_is_loopback() {
    assert_eq!(PeerAddr::Unix.ip(), IpAddr::V4([127, 0, 0, 1]));
}

#[test]
fn apply_proxy_proto_allowlist_admits_listed_peer() {
    let header = b"PROXY TCP4 9.8.7.6 1.1.1.1 1111 2222\r\n";
    let got = run_apply_proxy_proto(
        header,
        v4(10, 1, 2, 3, 54321),
        &ten(),
        ProxyProtocolVersion::V1,
    );
    // Header was parsed; src IP from the header is the new peer.
    assert_eq!(got, Some(PeerAddr::Tcp(v4(9, 8, 7, 6, 1111))));
}

#[test]
fn apply_proxy_proto_allowlist_drops_unlisted_peer() {
    let header = b"PROXY TCP4 9.8.7.6 1.1.1.1 1111 2222\r\n";
    let got = run_apply_proxy_proto(
        header,
        v4(192, 0, 2, 99, 54321),
        &ten(),
        ProxyProtocolVersion::V1,
    );
    assert!(got.is_none(), "untrusted peer should be rejected");
}

#[test]
fn apply_proxy_proto_empty_allowlist_trusts_any_peer() {
    let header = b"PROXY TCP4 9.8.7.6 1.1.1.1 1111 2222\r\n";
    let got = run_apply_proxy_proto(
        header,
        v4(203, 0, 113, 7, 54321),
        &vec![],
        ProxyProtocolVersion::V1,
    );
    assert_eq!(got, Some(PeerAddr::Tcp(v4(9, 8, 7, 6, 1111))));
}

#[test]
fn apply_proxy_proto_malformed_header_returns_none() {
    let header = b"NOT-A-PROXY-HEADER\r\n";
    let got = run_apply_proxy_proto(
        header,
        v4(10, 0, 0, 1, 54321),
        &ten(),
        ProxyProtocolVersion::V1,
    );
    assert!(got.is_none());
}

#[test]
fn header_without_addresses_keeps_the_peer() {
    let peer = v4(10, 0, 0, 1, 5);
    let got =
        run_apply_proxy_proto(b"PROXY UNKNOWN\r\n", peer, &ten(), ProxyProtocolVersion::V1);
    assert_eq!(got, Some(PeerAddr::Tcp(peer)));
}

#[test]
fn networks_hold_their_addresses() {
    let net = cidr("192.168.4.0", Family::V4, 22);
    assert!(net.contains(&IpAddr::V4([192, 168, 7, 255])));
    assert!(!net.contains(&IpAddr::V4([192, 168, 8, 0])));
    assert!(!net.contains(&IpAddr::V6([0; 8])));
    assert!(cidr("0.0.0.0", Family::V4, 0).contains(&IpAddr::V4([8, 8, 8, 8])));
    let host = cidr("1.2.3.4", Family::V4, 32);
    assert!(host.contains(&IpAddr::V4([1, 2, 3, 4])));
    assert!(!host.contains(&IpAddr::V4([1, 2, 3, 5])));
    let six = cidr("2001:db8::", Family::V6, 33);
    assert!(six.contains(&IpAddr::V6([0x2001, 0xdb8, 0x7fff, 0, 0, 0, 0, 1])));
    assert!(!six.contains(&IpAddr::V6([0x2001, 0xdb8, 0x8000, 0, 0, 0, 0, 1])));
    assert!(trusts(&vec![], PeerAddr::Unix));
    assert!(!trusts(&ten(), PeerAddr::Unix));
}

#[test]
fn addresses_print_with_their_ports() {
    let mut a = v4(0, 0, 0, 0, 0);
    assert_eq!(PeerAddr::Tcp(a).text(), "0.0.0.0:0");
    a.ip = IpAddr::V6([0x2001, 0xdb8, 0, 0, 0, 0, 0, 1]);
    a.port = 443;
    assert_eq!(PeerAddr::Tcp(a).text(), "[2001:db8::1]:443");
}

#[test]
fn sockets_are_bound_as_their_kind_says() {
    let inet = |kind| BoundAddr { kind, location: AddrLocation::Inet(v4(1, 2, 3, 4, 5)) };
    let unix = |kind| BoundAddr { kind, location: AddrLocation::Unix(b"/s".to_vec()) };
    let tcp = bind_socket(inet(SocketKind::TcpStream)).unwrap();
    assert!(tcp.can_accept());
    assert_eq!(tcp.tcp_local_addr(), Some(v4(1, 2, 3, 4, 5)));
    let udp = bind_socket(inet(SocketKind::UdpDgram)).unwrap();
    assert!(!udp.can_accept());
    assert_eq!(udp.tcp_local_addr(), None);
    assert!(matches!(bind_socket(unix(SocketKind::UnixStream)), Some(BindPlan::UnixStream(_))));
    assert!(matches!(bind_socket(unix(SocketKind::UnixDgram)), Some(BindPlan::UnixDgram(_))));
    assert!(bind_socket(unix(SocketKind::TcpStream)).is_none());
    assert!(bind_socket(inet(SocketKind::UnixSeqpacket)).is_none());
    assert!(SocketKind::TcpStream.is_byte_stream());
    assert!(!SocketKind::UnixDgram.is_byte_stream());
}

#[test]
fn default_header_timeout_is_active_without_config() {
    let timeouts = Timeouts::default();
    // The sentinel: default is None, so we use DEFAULT_HEADER_TIMEOUT_SECS.
    let secs = timeouts.request_header_secs.unwrap_or(DEFAULT_HEADER_TIMEOUT_SECS);
    assert!(secs > 0, "default header timeout must be positive for Slowloris protection");
    assert_eq!(first_request_secs(&timeouts), Some(secs));
    assert_eq!(
        make_builder(&timeouts),
        ConnSettings { keep_alive: true, header_read_secs: Some(30) }
    );
}

#[test]
fn explicit_zero_header_timeout_disables_protection() {
    let timeouts = Timeouts { request_header_secs: Some(0), ..Default::default() };
    let secs = timeouts.request_header_secs.unwrap_or(DEFAULT_HEADER_TIMEOUT_SECS);
    assert_eq!(secs, 0, "request-header=0 must disable the timeout");
    assert_eq!(first_request_secs(&timeouts), None);
    assert_eq!(make_builder(&timeouts).header_read_secs, None);
}

#[test]
fn keepalive_unifies_with_header_read_timeout() {
    // keepalive alone: that's the cap.
    let t = Timeouts { keepalive_secs: Some(7), request_header_secs: None, ..Default::default() };
    assert_eq!(header_cap(&t), Some(7));

    // Both set: minimum wins.
    let t = Timeouts {
        keepalive_secs: Some(7),
        request_header_secs: Some(20),
        ..Default::default()
    };
    assert_eq!(header_cap(&t), Some(7));

    // Only request-header set: that wins.
    let t = Timeouts { keepalive_secs: None, request_header_secs: Some(20), ..Default::default() };
    assert_eq!(header_cap(&t), Some(20));
}

#[test]
fn zero_keepalive_closes_after_each_answer() {
    let t = Timeouts { keepalive_secs: Some(0), ..Default::default() };
    assert!(!make_builder(&t).keep_alive);
}

#[test]
fn stalled_connection_is_dropped() {
    let mut m = Metrics::new();
    let mut c = Connection::start(false, &mut m).unwrap();
    assert!(c.awaits_first_request());
    assert_eq!(c.on(ConnEvent::HeaderTimeout), ConnAction::Drop);
    assert!(!c.open);
    assert_eq!((m.http_conns_total, m.http_conns_active), (1, 1));
    record_conn_end(&mut m);
    assert_eq!((m.http_conns_total, m.http_conns_active), (1, 0));
}

#[test]
fn first_request_ends_the_wait() {
    let mut m = Metrics::new();
    let mut c = Connection::start(false, &mut m).unwrap();
    assert_eq!(c.on(ConnEvent::FirstRequest), ConnAction::Continue);
    assert!(!c.awaits_first_request());
    assert_eq!(c.on(ConnEvent::HeaderTimeout), ConnAction::Continue);
    assert_eq!(c.on(ConnEvent::Shutdown(false)), ConnAction::Continue);
    assert_eq!(c.on(ConnEvent::Shutdown(true)), ConnAction::WindDown);
    assert!(!c.awaits_shutdown());
    assert_eq!(c.on(ConnEvent::Shutdown(true)), ConnAction::Continue);
    assert_eq!(c.on(ConnEvent::Closed), ConnAction::Drop);
}

#[test]
fn connections_are_refused_while_shutting_down() {
    let mut m = Metrics::new();
    assert!(Connection::start(true, &mut m).is_none());
    assert_eq!(m.http_conns_total, 0);
}

#[test]
fn handshakes_are_counted_by_their_end() {
    let mut m = Metrics::new();
    assert!(settle_handshake(Handshake::Done, &mut m));
    assert!(!settle_handshake(Handshake::Failed, &mut m));
    assert!(!settle_handshake(Handshake::TimedOut, &mut m));
    assert_eq!(m.tls_handshakes_total, 1);
    assert_eq!(m.tls_handshake_failures_total, 1);
    assert_eq!(m.tls_handshake_timeouts_total, 1);
}

#[test]
fn connection_is_served_after_its_phases() {
    let all = ConnSetup { limited: true, reads_header: true, tls: true };
    let mut p = all.first();
    let mut seen = vec![p];
    while p != ConnPhase::Serve {
        p = all.next(p, true);
        seen.push(p);
    }
    assert_eq!(
        seen,
        vec![
            ConnPhase::Permit,
            ConnPhase::ReadHeader,
            ConnPhase::Handshake,
            ConnPhase::Serve
        ]
    );
    let plain = ConnSetup { limited: false, reads_header: false, tls: false };
    assert_eq!(plain.first(), ConnPhase::Serve);
    let tls = ConnSetup { limited: true, reads_header: false, tls: true };
    assert_eq!(tls.next(ConnPhase::Permit, true), ConnPhase::Handshake);
    assert_eq!(tls.next(ConnPhase::Handshake, false), ConnPhase::Closed);
}

#[test]
fn accept_loop_ends_when_told() {
    assert_eq!(accept_step(AcceptEvent::Accepted), AcceptAction::Serve);
    assert_eq!(accept_step(AcceptEvent::Failed), AcceptAction::BackOff);
    assert_eq!(accept_step(AcceptEvent::Reaped), AcceptAction::Continue);
    assert_eq!(accept_step(AcceptEvent::Stop(true)), AcceptAction::Drain);
    assert_eq!(accept_step(AcceptEvent::Stop(false)), AcceptAction::Continue);
    assert_eq!(accept_step(AcceptEvent::Shutdown(true)), AcceptAction::Drain);
}

#[test]
fn unvalidated_clients_are_asked_to_retry() {
    let new = QuicEvent::Incoming { validated: false, may_retry: true };
    assert_eq!(quic_step(new, None), QuicAction::Retry);
    assert_eq!(quic_step(new, Some(true)), QuicAction::Retry);
    assert_eq!(quic_step(new, Some(false)), QuicAction::Serve);
    let known = QuicEvent::Incoming { validated: true, may_retry: true };
    assert_eq!(quic_step(known, Some(true)), QuicAction::Serve);
    assert_eq!(quic_step(QuicEvent::Closed, None), QuicAction::Drain);
    assert_eq!(quic_step(QuicEvent::Stop(false), None), QuicAction::Continue);
    assert_eq!(quic_step(QuicEvent::Stop(true), None), QuicAction::Drain);
    assert_eq!(quic_step(QuicEvent::Shutdown, None), QuicAction::Drain);
}

#[test]
fn quic_drain_closes_what_does_not_end() {
    assert_eq!(drain_step(DrainStep::Reject, true), DrainStep::WaitIdle);
    assert_eq!(drain_step(DrainStep::WaitIdle, true), DrainStep::Join);
    assert_eq!(drain_step(DrainStep::WaitIdle, false), DrainStep::ForceClose);
    assert_eq!(drain_step(DrainStep::ForceClose, true), DrainStep::Join);
    assert_eq!(drain_step(DrainStep::Join, false), DrainStep::Done);
}

#[test]
fn quic_connections_are_balanced() {
    let mut m = Metrics::new();
    record_quic_handshake(true, &mut m);
    record_quic_handshake(false, &mut m);
    record_quic_request(&mut m);
    assert_eq!(m.quic_connections_active, 1);
    record_quic_end(&mut m);
    assert_eq!(m.quic_connections_active, 0);
    assert_eq!(m.quic_handshakes_total, 1);
    assert_eq!(m.quic_handshake_failures_total, 1);
    assert_eq!(m.quic_requests_total, 1);
}

#[test]
fn authority_stands_in_for_the_host() {
    let mut h = HeaderMap::new();
    assert_eq!(host_to_add(&h, Some("example.com")).as_deref(), Some("example.com"));
    assert_eq!(host_to_add(&h, None), None);
    h.insert(HOST, HeaderValue::from_static("other.com"));
    assert_eq!(host_to_add(&h, Some("example.com")), None);
}

#[test]
fn h3_body_ends_at_its_cap() {
    let mut b = H3RequestBody::new(Some(10));
    assert_eq!(b.on(BodyEvent::Chunk(6)), BodyFrame::Data);
    assert_eq!(b.on(BodyEvent::Chunk(4)), BodyFrame::Data);
    assert_eq!(b.on(BodyEvent::Chunk(1)), BodyFrame::End);
    assert_eq!(b.on(BodyEvent::Chunk(1)), BodyFrame::End);
    let mut free = H3RequestBody::new(None);
    assert_eq!(free.on(BodyEvent::Chunk(u64::MAX)), BodyFrame::Data);
    assert_eq!(free.on(BodyEvent::Chunk(u64::MAX)), BodyFrame::Data);
    assert_eq!(free.on(BodyEvent::Failed), BodyFrame::End);
    assert_eq!(free.on(BodyEvent::Chunk(1)), BodyFrame::End);
    let mut ended = H3RequestBody::new(None);
    assert_eq!(ended.on(BodyEvent::End), BodyFrame::End);
}

#[test]
fn h3_trailers_go_out_last() {
    assert_eq!(send_step(false, AnswerEvent::Data), AnswerAction::SendData);
    assert_eq!(send_step(false, AnswerEvent::Trailers), AnswerAction::KeepTrailers);
    assert_eq!(send_step(true, AnswerEvent::Trailers), AnswerAction::AddTrailers);
    assert_eq!(send_step(true, AnswerEvent::End), AnswerAction::SendTrailersAndFinish);
    assert_eq!(send_step(false, AnswerEvent::End), AnswerAction::Finish);
    assert_eq!(send_step(true, AnswerEvent::Failed), AnswerAction::Abort);
}

#[test]
fn stream_labels_tell_where_tls_is() {
    assert_eq!(stream_label(false, false), "stream");
    assert_eq!(stream_label(true, false), "stream (TLS)");
    assert_eq!(stream_label(false, true), "stream (re-TLS upstream)");
    assert_eq!(stream_label(true, true), "stream (TLS \u{2192} re-TLS)");
}

#[test]
fn stream_upstreams_are_byte_streams() {
    let tcp = BoundAddr {
        kind: SocketKind::TcpStream,
        location: AddrLocation::Inet(v4(1, 2, 3, 4, 5)),
    };
    assert!(matches!(stream_upstream(tcp), Some(UpstreamPlan::Tcp(_))));
    let udp = BoundAddr {
        kind: SocketKind::UdpDgram,
        location: AddrLocation::Inet(v4(1, 2, 3, 4, 5)),
    };
    assert!(stream_upstream(udp).is_none());
}

#[test]
fn upstream_certificate_names_its_address() {
    let tcp = UpstreamPlan::Tcp(v4(1, 2, 3, 4, 5));
    assert!(matches!(upstream_name(&tcp), UpstreamName::Address(IpAddr::V4([1, 2, 3, 4]))));
    let unix = UpstreamPlan::Unix(b"/run/app.sock".to_vec());
    assert!(matches!(upstream_name(&unix), UpstreamName::Localhost));
}

#[test]
fn drained_and_abandoned_connections_are_counted() {
    let mut m = Metrics::new();
    record_drain(&mut m, 5, 2);
    record_drain(&mut m, 1, 0);
    assert_eq!((m.shutdown_drained_total, m.shutdown_abandoned_total), (6, 2));
}

#[test]
fn stream_header_names_both_ends() {
    let peer = PeerAddr::Tcp(v4(9, 8, 7, 6, 1111));
    let h = build_stream_header(
        ProxyProtocolVersion::V1,
        peer,
        Some(v4(1, 1, 1, 1, 2222)),
        None,
    );
    assert_eq!(h, b"PROXY TCP4 9.8.7.6 1.1.1.1 1111 2222\r\n");
    let h = build_stream_header(ProxyProtocolVersion::V1, peer, None, None);
    assert_eq!(h, b"PROXY TCP4 9.8.7.6 0.0.0.0 1111 0\r\n");
    let h = build_stream_header(ProxyProtocolVersion::V1, PeerAddr::Unix, None, None);
    assert_eq!(h, b"PROXY UNKNOWN\r\n");
    let h = build_stream_header(ProxyProtocolVersion::V2, PeerAddr::Unix, None, Some(b"/s"));
    assert_eq!(h.len(), 232);
    let h = build_stream_header(ProxyProtocolVersion::V2, PeerAddr::Unix, None, None);
    assert_eq!(h.len(), 16);
}

#[test]
fn stream_takes_its_steps_in_order() {
    let all = StreamSetup {
        reads_header: true,
        tls_in: true,
        has_policy: true,
        tls_out: true,
        sends_header: true,
    };
    let mut p = all.first();
    let mut seen = vec![p];
    while p != StreamPhase::Copy {
        p = all.next(p, StreamEvent::Done);
        seen.push(p);
    }
    assert_eq!(
        seen,
        vec![
            StreamPhase::ReadHeader,
            StreamPhase::Handshake,
            StreamPhase::Judge,
            StreamPhase::Connect,
            StreamPhase::UpstreamHandshake,
            StreamPhase::SendHeader,
            StreamPhase::Copy
        ]
    );
    let plain = StreamSetup {
        reads_header: false,
        tls_in: false,
        has_policy: false,
        tls_out: false,
        sends_header: false,
    };
    assert_eq!(plain.first(), StreamPhase::Connect);
    assert_eq!(plain.next(StreamPhase::Connect, StreamEvent::Done), StreamPhase::Copy);
    assert_eq!(plain.next(StreamPhase::Connect, StreamEvent::Failed), StreamPhase::Closed);
    assert_eq!(plain.next(StreamPhase::Copy, StreamEvent::Shutdown), StreamPhase::Closed);
    assert_eq!(all.next(StreamPhase::Handshake, StreamEvent::Shutdown), StreamPhase::Handshake);
}

#[test]
fn stream_policy_allows_or_closes() {
    assert_eq!(judge_stream(&PolicyOutcome::Allow), StreamEvent::Done);
    assert_eq!(judge_stream(&PolicyOutcome::Deny(403)), StreamEvent::Failed);
    assert_eq!(judge_stream(&PolicyOutcome::Redirect("/".into(), 302)), StreamEvent::Failed);
}

#[test]
fn streams_are_balanced() {
    let mut m = Metrics::new();
    record_stream_open(&mut m);
    record_stream_bytes(&mut m, 10, 20);
    assert_eq!(m.stream_conns_active, 1);
    record_stream_end(&mut m);
    assert_eq!((m.stream_conns_active, m.stream_conns_total), (0, 1));
    assert_eq!((m.stream_bytes_in_total, m.stream_bytes_out_total), (10, 20));
}

const NOW: u64 = 9_000_000_000_000;
const SEC: u64 = 1_000_000_000;

#[test]
fn flow_table_evicts_idle_entries() {
    let mut table = FlowTable::new(50_000_000);
    let mut metrics = Metrics::new();
    // Insert a flow with stale last_seen.
    let key = ClientKey::Udp(v4(127, 0, 0, 1, 1));
    table.open(key, 7, NOW - 5 * SEC, &mut metrics);
    table.evict_idle(NOW, &mut metrics);
    assert_eq!(table.len(), 0, "stale flow should be evicted");
    assert_eq!(metrics.datagram_flow_evict_total, 1);
    assert_eq!(metrics.datagram_flows_active, 0);
}

#[test]
fn flow_table_keeps_fresh_entries() {
    let mut table = FlowTable::new(60 * SEC);
    let mut metrics = Metrics::new();
    let key = ClientKey::Udp(v4(127, 0, 0, 1, 1));
    table.open(key, 7, NOW, &mut metrics);
    table.evict_idle(NOW, &mut metrics);
    assert_eq!(table.len(), 1);
}

#[test]
fn flows_are_reused_by_their_client() {
    let mut table = FlowTable::new(SEC);
    let mut m = Metrics::new();
    let key = || ClientKey::UnixPath(b"/c".to_vec());
    let (flow, new) = table.open(key(), 1, NOW, &mut m);
    assert!(new);
    assert_eq!(flow.upstream, 1);
    let (flow, new) = table.open(key(), 2, NOW + 1, &mut m);
    assert!(!new);
    assert_eq!(flow.upstream, 1);
    assert_eq!((m.datagram_flow_create_total, m.datagram_flows_active), (1, 1));
    table.touch(&key(), NOW + SEC);
    table.evict_idle(NOW + SEC + 1, &mut m);
    assert_eq!(table.get(&key()).unwrap().last_seen, NOW + SEC);
    table.close(&key(), &mut m);
    assert!(table.get(&key()).is_none());
    assert_eq!(m.datagram_flows_active, 0);
}

#[test]
fn forwarding_touches_and_counts() {
    let mut table = FlowTable::new(SEC);
    let mut m = Metrics::new();
    let key = ClientKey::Udp(v4(1, 2, 3, 4, 5));
    table.open(ClientKey::Udp(v4(1, 2, 3, 4, 5)), 1, NOW, &mut m);
    forward_in(&mut table, &key, 100, NOW + 9, &mut m);
    assert_eq!(table.get(&key).unwrap().last_seen, NOW + 9);
    assert_eq!((m.datagrams_out_total, m.bytes_out_total), (1, 100));
}

#[test]
fn nameless_clients_are_not_served() {
    let named = DgramEvent::Received(Some(ClientKey::Udp(v4(1, 2, 3, 4, 5))));
    assert!(matches!(dgram_step(named), DgramAction::Forward(ClientKey::Udp(_))));
    assert!(matches!(dgram_step(DgramEvent::Received(None)), DgramAction::Continue));
    assert!(matches!(dgram_step(DgramEvent::Failed), DgramAction::Continue));
    assert!(matches!(dgram_step(DgramEvent::Stop(false)), DgramAction::Continue));
    assert!(matches!(dgram_step(DgramEvent::Stop(true)), DgramAction::Stop));
    assert!(matches!(dgram_step(DgramEvent::Shutdown), DgramAction::Stop));
}

#[test]
fn datagrams_are_counted() {
    let mut m = Metrics::new();
    record_inbound(&mut m, 5);
    record_forwarded(&mut m, 5);
    record_reply(&mut m, 7);
    assert_eq!((m.datagrams_in_total, m.bytes_in_total), (1, 5));
    assert_eq!(m.bytes_out_total, 12);
    record_conn_open(&mut m);
    assert_eq!(m.datagram_flows_active, 1);
    record_conn_close(&mut m);
    assert_eq!(m.datagram_flows_active, 0);
}

#[test]
fn datagram_proxies_know_their_sockets() {
    assert_eq!(dgram_listener(SocketKind::UdpDgram), Some(DgramListener::Udp));
    assert_eq!(dgram_listener(SocketKind::UnixDgram), Some(DgramListener::UnixDgram));
    assert_eq!(dgram_listener(SocketKind::UnixSeqpacket), Some(DgramListener::UnixSeqpacket));
    assert_eq!(dgram_listener(SocketKind::TcpStream), None);
    assert_eq!(unspecified_for(&v4(1, 2, 3, 4, 5)), v4(0, 0, 0, 0, 0));
    let six = SocketAddr::new(IpAddr::V6([1; 8]), 9);
    assert_eq!(unspecified_for(&six), SocketAddr::new(IpAddr::V6([0; 8]), 0));
    let udp = BoundAddr {
        kind: SocketKind::UdpDgram,
        location: AddrLocation::Inet(v4(1, 2, 3, 4, 5)),
    };
    assert!(matches!(build_upstream(udp), Some(DgramUpstream::Udp { .. })));
    assert_eq!(flow_idle_nanos(None), 30 * SEC as u128);
    assert_eq!(flow_idle_nanos(Some(2)), 2 * SEC as u128);
}

#[test]
fn replies_go_on_until_the_upstream_fails() {
    assert!(reply_goes_on(false, UpstreamEvent::Message(5)));
    assert!(!reply_goes_on(false, UpstreamEvent::Failed));
    assert!(!reply_goes_on(true, UpstreamEvent::Message(0)));
}

fn walk(events: &[Event]) -> Phase {
    let mut p = Progress::new();
    let mut at = p.phase;
    for e in events {
        at = p.advance(*e);
    }
    at
}

#[test]
fn request_passes_every_stage() {
    let route = RouteFacts { has_policy: true, needs_country: true, needs_principal: true };
    let mut p = Progress::new();
    let steps = [
        (Event::LetIn, Phase::Intercept),
        (Event::Open, Phase::Identify),
        (Event::Identified { known: false, refresh: true }, Phase::Refresh),
        (Event::Refreshed { known: false }, Phase::Route),
        (Event::Routed(route), Phase::Locate),
        (Event::Located, Phase::Judge),
        (Event::Judged { allowed: true, authenticated: false }, Phase::Name),
        (Event::Named, Phase::Limit),
        (Event::Cleared, Phase::Handle),
        (Event::Replied, Phase::Finish),
        (Event::Finished, Phase::Count),
        (Event::Counted, Phase::Closed),
    ];
    for (e, want) in steps {
        assert_eq!(p.advance(e), want);
    }
}

#[test]
fn refused_requests_are_still_counted() {
    let route = RouteFacts { has_policy: true, needs_country: false, needs_principal: false };
    let denied = [
        Event::LetIn,
        Event::Open,
        Event::Identified { known: true, refresh: false },
        Event::Routed(route),
        Event::Judged { allowed: false, authenticated: true },
    ];
    assert_eq!(walk(&denied), Phase::Finish);
    assert_eq!(walk(&[Event::TooLong]), Phase::Closed);
    assert_eq!(walk(&[Event::LetIn, Event::Answered]), Phase::Count);
    assert_eq!(walk(&[Event::LetIn, Event::NotReady]), Phase::Closed);
}

#[test]
fn handler_is_not_reached_out_of_turn() {
    assert_eq!(walk(&[Event::Cleared, Event::Replied]), Phase::Arrive);
    assert_eq!(walk(&[Event::LetIn, Event::Cleared]), Phase::Intercept);
}

fn link_local(scope_id: u32, flowinfo: u32) -> SocketAddr {
    SocketAddr { ip: IpAddr::V6([0xfe80, 0, 0, 0, 0, 0, 0, 1]), port: 9, flowinfo, scope_id }
}

#[test]
fn scopes_tell_clients_apart() {
    let mut table = FlowTable::new(SEC);
    let mut m = Metrics::new();
    assert!(table.open(ClientKey::Udp(link_local(2, 0)), 1, NOW, &mut m).1);
    assert!(table.open(ClientKey::Udp(link_local(3, 0)), 2, NOW, &mut m).1);
    assert!(table.open(ClientKey::Udp(link_local(2, 5)), 3, NOW, &mut m).1);
    assert_eq!(table.len(), 3);
    assert_eq!(table.get(&ClientKey::Udp(link_local(3, 0))).unwrap().upstream, 2);
    assert!(!table.open(ClientKey::Udp(link_local(2, 0)), 4, NOW, &mut m).1);
}

#[test]
fn scoped_peer_shows_its_scope() {
    assert_eq!(PeerAddr::Tcp(link_local(2, 7)).text(), "[fe80::1%2]:9");
    assert_eq!(PeerAddr::Tcp(link_local(0, 7)).text(), "[fe80::1]:9");
    let mut four = v4(1, 2, 3, 4, 80);
    four.scope_id = 2;
    assert_eq!(PeerAddr::Tcp(four).text(), "1.2.3.4:80");
}

#[test]
fn socket_paths_are_compared_step_by_step() {
    let mut table = FlowTable::new(SEC);
    let mut m = Metrics::new();
    let key = |p: &[u8]| ClientKey::UnixPath(p.to_vec());
    assert!(table.open(key(b"/run/a/c.sock"), 1, NOW, &mut m).1);
    assert!(!table.open(key(b"/run//a/./c.sock/"), 2, NOW, &mut m).1);
    assert!(table.open(key(b"run/a/c.sock"), 3, NOW, &mut m).1);
    assert!(table.open(key(b"./run/a/c.sock"), 4, NOW, &mut m).1);
    assert!(table.open(key(b"/run/b/../a/c.sock"), 5, NOW, &mut m).1);
    assert_eq!(table.len(), 4);
    for (a, b) in [("/a//b", "/a/b"), ("a/.", "a"), ("//", "/"), ("a/./b", "a//b"), ("..", "../")] {
        assert!(same_path(a.as_bytes(), b.as_bytes()), "{a} {b}");
        assert_eq!(std::path::Path::new(a), std::path::Path::new(b));
    }
    for (a, b) in [("./a", "a"), ("/a", "a"), (".", ""), ("a/..", "."), ("/", "")] {
        assert!(!same_path(a.as_bytes(), b.as_bytes()), "{a} {b}");
        assert_ne!(std::path::Path::new(a), std::path::Path::new(b));
    }
}
