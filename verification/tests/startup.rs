use hypershunt::listener::socket::SocketKind;
use hypershunt::startup::{
    classify, drain_secs, plan_start, proxy_count, vhost_alpn_overrides, HostName, ListenerClass,
    ListenerFacts, Vhost, SHUTDOWN_DRAIN_SECS,
};

fn facts(kind: SocketKind, has_tls: bool, has_quic: bool, has_proxy: bool) -> ListenerFacts {
    ListenerFacts { kind, has_tls, has_quic, has_proxy }
}

fn host(value: &str, is_regex: bool) -> HostName {
    HostName { value: value.into(), is_regex }
}

#[test]
fn listeners_have_a_class() {
    let tcp = SocketKind::TcpStream;
    let udp = SocketKind::UdpDgram;
    let class = |l: ListenerFacts| classify(&l);
    assert_eq!(class(facts(tcp, false, false, false)), Some(ListenerClass::PlainHttp));
    assert_eq!(class(facts(tcp, true, false, false)), Some(ListenerClass::TlsHttp));
    assert_eq!(class(facts(tcp, false, false, true)), Some(ListenerClass::PlainStream));
    assert_eq!(class(facts(tcp, true, false, true)), Some(ListenerClass::TlsStream));
    assert_eq!(class(facts(tcp, false, true, false)), None);
    assert_eq!(class(facts(udp, false, true, false)), Some(ListenerClass::QuicHttp));
    assert_eq!(class(facts(udp, false, false, true)), Some(ListenerClass::DgramProxy));
    assert_eq!(class(facts(udp, false, true, true)), None);
    assert_eq!(class(facts(udp, true, false, true)), None);
    assert_eq!(class(facts(udp, false, false, false)), None);
}

#[test]
fn listeners_start_by_class() {
    let all = vec![
        facts(SocketKind::UdpDgram, false, false, true),
        facts(SocketKind::TcpStream, true, false, false),
        facts(SocketKind::TcpStream, false, false, false),
        facts(SocketKind::UnixStream, false, false, true),
        facts(SocketKind::TcpStream, true, false, true),
        facts(SocketKind::UdpDgram, false, true, false),
    ];
    assert_eq!(plan_start(&all), Ok(vec![3, 2, 1, 5, 4, 0]));
    assert_eq!(proxy_count(&all), 3);
}

#[test]
fn impossible_listener_is_named() {
    let all = vec![
        facts(SocketKind::TcpStream, false, false, false),
        facts(SocketKind::TcpStream, false, true, false),
    ];
    assert_eq!(plan_start(&all), Err(1));
}

#[test]
fn protocols_are_offered_by_name() {
    let h1 = || Some(vec!["http/1.1".to_string()]);
    let hosts = vec![
        Vhost { name: host("a.com", false), aliases: vec![host("www.a.com", false)], alpn: h1() },
        Vhost { name: host(".*", true), aliases: vec![host("b.com", false)], alpn: h1() },
        Vhost { name: host("c.com", false), aliases: vec![], alpn: None },
    ];
    let names: Vec<String> = vhost_alpn_overrides(&hosts).into_iter().map(|(n, _)| n).collect();
    assert_eq!(names, vec!["a.com", "www.a.com", "b.com"]);
}

#[test]
fn drain_waits_as_configured() {
    assert_eq!(drain_secs(false, 0), Some(SHUTDOWN_DRAIN_SECS));
    assert_eq!(drain_secs(false, 7), Some(SHUTDOWN_DRAIN_SECS));
    assert_eq!(drain_secs(true, 7), Some(7));
    assert_eq!(drain_secs(true, 0), None);
}
