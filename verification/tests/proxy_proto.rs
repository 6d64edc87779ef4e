use hypershunt::ip::{ip_string, parse_ip, Family, IpAddr, SocketAddr};
use hypershunt::proxy_proto::{
    build_header, build_v1, build_v1_unknown, build_v2, build_v2_unix, build_v2_unspec,
    parse_incoming, parse_v1, parse_v2, signature, v1_next, v2_len, ParseError,
    ProxyProtocolVersion, V1Read,
};

fn v4(ip: [u8; 4], port: u16) -> SocketAddr {
    SocketAddr::new(IpAddr::V4(ip), port)
}

fn v6(ip: [u8; 16], port: u16) -> SocketAddr {
    let mut groups = [0u16; 8];
    for i in 0..8 {
        groups[i] = u16::from_be_bytes([ip[2 * i], ip[2 * i + 1]]);
    }
    SocketAddr::new(IpAddr::V6(groups), port)
}

fn addr(text: &str, family: Family) -> IpAddr {
    let chars: Vec<char> = text.chars().collect();
    parse_ip(&chars, family).unwrap()
}

fn parse_v1_bytes(bytes: &[u8]) -> Result<Option<(SocketAddr, SocketAddr)>, ParseError> {
    parse_v1(bytes).map(|p| p.addrs)
}

fn parse_v2_bytes(bytes: &[u8]) -> Result<Option<(SocketAddr, SocketAddr)>, ParseError> {
    parse_v2(bytes).map(|p| p.addrs)
}

#[test]
fn v1_ipv4_format() {
    let header = build_v1(&v4([192, 168, 1, 100], 54321), &v4([10, 0, 0, 1], 3306));
    let s = std::str::from_utf8(&header).unwrap();
    assert_eq!(s, "PROXY TCP4 192.168.1.100 10.0.0.1 54321 3306\r\n");
}

#[test]
fn v1_ipv6_format() {
    let src = addr("::1", Family::V6);
    let dst = addr("::2", Family::V6);
    let header =
        build_v1(&SocketAddr::new(src, 1234), &SocketAddr::new(dst, 5432));
    let s = std::str::from_utf8(&header).unwrap();
    assert_eq!(s, "PROXY TCP6 ::1 ::2 1234 5432\r\n");
}

#[test]
fn v1_ends_with_crlf() {
    let h = build_v1(&v4([1, 2, 3, 4], 100), &v4([5, 6, 7, 8], 200));
    assert!(h.ends_with(b"\r\n"));
}

#[test]
fn v2_starts_with_signature() {
    let h = build_v2(&v4([1, 2, 3, 4], 100), &v4([5, 6, 7, 8], 200));
    assert_eq!(h[..12], signature()[..]);
    assert_eq!(&h[..12], b"\r\n\r\n\x00\r\nQUIT\n");
}

#[test]
fn v2_version_and_command() {
    let h = build_v2(&v4([1, 2, 3, 4], 100), &v4([5, 6, 7, 8], 200));
    assert_eq!(h[12], 0x21, "version=2, command=PROXY");
}

#[test]
fn v2_ipv4_family_and_length() {
    let h = build_v2(&v4([1, 2, 3, 4], 100), &v4([5, 6, 7, 8], 200));
    assert_eq!(h[13], 0x11, "AF_INET + STREAM");
    let len = u16::from_be_bytes([h[14], h[15]]);
    assert_eq!(len, 12, "4+4+2+2 bytes for IPv4 address block");
    assert_eq!(h.len(), 28, "16 fixed + 12 address bytes");
}

#[test]
fn v2_ipv4_addresses_and_ports() {
    let h = build_v2(&v4([192, 168, 1, 100], 54321), &v4([10, 0, 0, 1], 3306));
    assert_eq!(&h[16..20], &[192, 168, 1, 100]); // src IP
    assert_eq!(&h[20..24], &[10, 0, 0, 1]); // dst IP
    let src_port = u16::from_be_bytes([h[24], h[25]]);
    let dst_port = u16::from_be_bytes([h[26], h[27]]);
    assert_eq!(src_port, 54321);
    assert_eq!(dst_port, 3306);
}

#[test]
fn v2_ipv6_family_and_length() {
    let h = build_v2(
        &v6([0, 0, 0, 0, 0, 0, 0, 0, 0, 0, 0, 0, 0, 0, 0, 1], 1234),
        &v6([0, 0, 0, 0, 0, 0, 0, 0, 0, 0, 0, 0, 0, 0, 0, 2], 5432),
    );
    assert_eq!(h[13], 0x21, "AF_INET6 + STREAM");
    let len = u16::from_be_bytes([h[14], h[15]]);
    assert_eq!(len, 36, "16+16+2+2 bytes for IPv6 address block");
    assert_eq!(h.len(), 52, "16 fixed + 36 address bytes");
}

#[test]
fn build_header_dispatches_to_correct_version() {
    let src = v4([1, 2, 3, 4], 1000);
    let dst = v4([5, 6, 7, 8], 2000);
    let v1 = build_header(ProxyProtocolVersion::V1, &src, &dst);
    let v2 = build_header(ProxyProtocolVersion::V2, &src, &dst);
    // v1 is text; v2 starts with the binary signature
    assert!(v1.starts_with(b"PROXY "));
    assert!(v2.starts_with(&signature()));
}

#[test]
fn parse_v1_tcp4() {
    let (src, dst) = parse_v1_bytes(b"PROXY TCP4 192.168.1.100 10.0.0.1 54321 3306\r\n")
        .unwrap()
        .unwrap();
    assert_eq!(src, v4([192, 168, 1, 100], 54321));
    assert_eq!(dst, v4([10, 0, 0, 1], 3306));
}

#[test]
fn parse_v1_tcp6() {
    let (src, dst) = parse_v1_bytes(b"PROXY TCP6 ::1 ::2 1234 5432\r\n").unwrap().unwrap();
    assert_eq!(src, v6([0, 0, 0, 0, 0, 0, 0, 0, 0, 0, 0, 0, 0, 0, 0, 1], 1234));
    assert_eq!(dst, v6([0, 0, 0, 0, 0, 0, 0, 0, 0, 0, 0, 0, 0, 0, 0, 2], 5432));
}

#[test]
fn parse_v1_unknown_returns_none() {
    let result = parse_v1_bytes(b"PROXY UNKNOWN\r\n").unwrap();
    assert!(result.is_none());
}

#[test]
fn parse_v1_roundtrip() {
    // Build a v1 header with the builder, then parse it back.
    let src = v4([192, 168, 1, 100], 54321);
    let dst = v4([10, 0, 0, 1], 3306);
    let header = build_v1(&src, &dst);
    let (parsed_src, parsed_dst) = parse_v1_bytes(&header).unwrap().unwrap();
    assert_eq!(parsed_src, src);
    assert_eq!(parsed_dst, dst);
}

#[test]
fn parse_v1_bad_prefix_errors() {
    let result = parse_v1_bytes(b"GARBAGE TCP4 1.2.3.4 5.6.7.8 1 2\r\n");
    assert!(result.is_err());
}

#[test]
fn parse_v2_ipv4_roundtrip() {
    let src = v4([192, 168, 1, 100], 54321);
    let dst = v4([10, 0, 0, 1], 3306);
    let header = build_v2(&src, &dst);
    let (parsed_src, parsed_dst) = parse_v2_bytes(&header).unwrap().unwrap();
    assert_eq!(parsed_src, src);
    assert_eq!(parsed_dst, dst);
}

#[test]
fn parse_v2_ipv6_roundtrip() {
    let src = v6([0, 0, 0, 0, 0, 0, 0, 0, 0, 0, 0, 0, 0, 0, 0, 1], 1234);
    let dst = v6([0, 0, 0, 0, 0, 0, 0, 0, 0, 0, 0, 0, 0, 0, 0, 2], 5432);
    let header = build_v2(&src, &dst);
    let (parsed_src, parsed_dst) = parse_v2_bytes(&header).unwrap().unwrap();
    assert_eq!(parsed_src, src);
    assert_eq!(parsed_dst, dst);
}

#[test]
fn parse_v2_local_command_returns_none() {
    // Build a LOCAL header manually (command=0x20, family=0x00, len=0).
    let mut header = Vec::new();
    header.extend_from_slice(&signature());
    header.push(0x20); // version=2, command=LOCAL
    header.push(0x00); // UNSPEC
    header.extend_from_slice(&0u16.to_be_bytes());
    let result = parse_v2_bytes(&header).unwrap();
    assert!(result.is_none());
}

#[test]
fn parse_v2_bad_signature_errors() {
    let mut header = vec![0u8; 16];
    header[0] = 0xFF; // corrupt the signature
    let result = parse_v2_bytes(&header);
    assert!(result.is_err());
}

#[test]
fn v1_unknown_is_exact_bytes() {
    assert_eq!(build_v1_unknown(), b"PROXY UNKNOWN\r\n");
}

#[test]
fn v2_unspec_structure() {
    let h = build_v2_unspec();
    assert_eq!(h.len(), 16);
    assert_eq!(h[..12], signature()[..]);
    assert_eq!(h[12], 0x21, "PROXY command");
    assert_eq!(h[13], 0x00, "AF_UNSPEC");
    let len = u16::from_be_bytes([h[14], h[15]]);
    assert_eq!(len, 0, "no address block");
}

#[test]
fn v2_unspec_parses_as_none() {
    let h = build_v2_unspec();
    let result = parse_v2_bytes(&h).unwrap();
    assert!(result.is_none(), "UNSPEC should return None");
}

#[test]
fn v2_unix_structure() {
    let src_p = b"/run/client.sock";
    let dst_p = b"/run/hypershunt.sock";
    let h = build_v2_unix(Some(src_p), Some(dst_p));
    assert_eq!(h.len(), 232, "16 fixed + 216 address bytes");
    assert_eq!(h[..12], signature()[..]);
    assert_eq!(h[12], 0x21, "PROXY command");
    assert_eq!(h[13], 0x31, "AF_UNIX + STREAM");
    let addr_len = u16::from_be_bytes([h[14], h[15]]);
    assert_eq!(addr_len, 216);
}

#[test]
fn v2_unix_encodes_paths() {
    let dst_p = b"/run/hypershunt.sock";
    let h = build_v2_unix(None, Some(dst_p));
    // src slot (bytes 16-123) should be all zeros for None
    assert!(h[16..124].iter().all(|&b| b == 0), "src slot zero");
    // dst slot (bytes 124-231) should start with the path
    let path_bytes = b"/run/hypershunt.sock";
    assert_eq!(&h[124..124 + path_bytes.len()], path_bytes);
    // remainder of dst slot should be zero-padded
    let after = 124 + path_bytes.len();
    assert!(h[after..232].iter().all(|&b| b == 0));
}

#[test]
fn v2_unix_parses_as_none() {
    // AF_UNIX carries paths, not IP addresses; parser should return None.
    let h = build_v2_unix(Some(b"/src.sock"), Some(b"/dst.sock"));
    let result = parse_v2_bytes(&h).unwrap();
    assert!(result.is_none(), "AF_UNIX should return None from parser");
}

#[test]
fn v2_unix_truncates_overlong_path() {
    // Path longer than 107 bytes must be silently truncated.
    let long = "a".repeat(200);
    let h = build_v2_unix(Some(long.as_bytes()), None);
    assert_eq!(h.len(), 232);
    // Byte 107 of the src slot (offset 16+107 = 123) must be 0
    // (null terminator, not part of the truncated path).
    assert_eq!(h[16 + 107], 0);
    assert_eq!(h[16 + 106], b'a');
}

#[test]
fn v1_errors_are_told_apart() {
    let kind = |b: &[u8]| parse_v1_bytes(b).err().unwrap();
    assert_eq!(kind(b"PROXY TCP4 1.2.3.4"), ParseError::UnexpectedEof);
    assert_eq!(kind(&[b'x'; 200]), ParseError::TooLong);
    assert_eq!(kind(b"PROXY \xff\r\n"), ParseError::NotUtf8);
    assert_eq!(kind(b"GARBAGE\r\n"), ParseError::MissingPrefix);
    assert_eq!(kind(b"PROXY TCP4 1.2.3.4 5.6.7.8 1\r\n"), ParseError::MalformedV1);
    assert_eq!(kind(b"PROXY TCP4 1.2.3.4 5.6.7.8 1 65536\r\n"), ParseError::MalformedV1);
    assert_eq!(kind(b"PROXY TCP4 ::1 ::2 1 2\r\n"), ParseError::MalformedV1);
}

#[test]
fn v2_errors_are_told_apart() {
    let kind = |b: &[u8]| parse_v2_bytes(b).err().unwrap();
    let with = |ver: u8, fam: u8, len: u16, body: &[u8]| {
        let mut h = signature();
        h.push(ver);
        h.push(fam);
        h.extend_from_slice(&len.to_be_bytes());
        h.extend_from_slice(body);
        h
    };
    assert_eq!(kind(&[0u8; 3]), ParseError::UnexpectedEof);
    assert_eq!(kind(&[0u8; 16]), ParseError::BadSignature);
    assert_eq!(kind(&with(0x11, 0x11, 0, &[])), ParseError::BadVersion);
    assert_eq!(kind(&with(0x22, 0x11, 0, &[])), ParseError::UnknownCommand);
    assert_eq!(kind(&with(0x21, 0x11, 12, &[0; 4])), ParseError::UnexpectedEof);
    assert_eq!(kind(&with(0x21, 0x11, 4, &[0; 4])), ParseError::ShortInet);
    assert_eq!(kind(&with(0x21, 0x21, 12, &[0; 12])), ParseError::ShortInet6);
}

#[test]
fn header_is_consumed_and_nothing_more() {
    let src = v4([1, 2, 3, 4], 1000);
    let dst = v4([5, 6, 7, 8], 2000);
    for version in [ProxyProtocolVersion::V1, ProxyProtocolVersion::V2] {
        let mut bytes = build_header(version, &src, &dst);
        let n = bytes.len();
        bytes.extend_from_slice(b"GET / HTTP/1.1\r\n");
        let p = parse_incoming(&bytes, version).unwrap();
        assert_eq!(p.consumed, n);
        assert_eq!(p.addrs, Some((src, dst)));
    }
}

#[test]
fn v1_is_read_byte_by_byte() {
    assert!(matches!(v1_next(b""), V1Read::More));
    assert!(matches!(v1_next(b"PROXY UNKNOWN\r"), V1Read::More));
    assert!(matches!(v1_next(b"PROXY UNKNOWN\r\n"), V1Read::Done));
    assert!(matches!(v1_next(&[b'x'; 108]), V1Read::TooLong));
}

#[test]
fn v2_length_is_read_first() {
    let h = build_v2(&v4([1, 2, 3, 4], 1), &v4([5, 6, 7, 8], 2));
    assert_eq!(v2_len(&h[..16]), Ok(12));
    assert_eq!(v2_len(&[0u8; 16]), Err(ParseError::BadSignature));
}

#[test]
fn ip_texts_are_canonical() {
    let cases = [
        ("0.0.0.0", Family::V4, "0.0.0.0"),
        ("2001:db8:0:0:0:0:0:1", Family::V6, "2001:db8::1"),
        ("1:0:0:2:0:0:0:3", Family::V6, "1:0:0:2::3"),
        ("::", Family::V6, "::"),
        ("1::", Family::V6, "1::"),
        ("2001:db8:0:1:1:1:1:1", Family::V6, "2001:db8:0:1:1:1:1:1"),
        ("::ffff:1.2.3.4", Family::V6, "::ffff:1.2.3.4"),
    ];
    for (text, family, canonical) in cases {
        assert_eq!(ip_string(&addr(text, family)), canonical, "{text}");
    }
}

#[test]
fn bad_ip_texts_are_refused() {
    let read = |t: &str, f: Family| parse_ip(&t.chars().collect::<Vec<char>>(), f);
    for t in ["", "1.2.3", "1.2.3.4.5", "256.1.1.1", "01.2.3.4", "1.2.3.4 "] {
        assert!(read(t, Family::V4).is_none(), "{t}");
    }
    for t in ["", ":", "1:2", "::1::2", "12345::", "1:2:3:4:5:6:7:8:9", "g::"] {
        assert!(read(t, Family::V6).is_none(), "{t}");
    }
}

#[test]
fn headers_carry_no_scope() {
    let mut src = v6([0xfe, 0x80, 0, 0, 0, 0, 0, 0, 0, 0, 0, 0, 0, 0, 0, 1], 5);
    let dst = v6([0xfe, 0x80, 0, 0, 0, 0, 0, 0, 0, 0, 0, 0, 0, 0, 0, 2], 6);
    let plain = src;
    src.scope_id = 3;
    src.flowinfo = 7;
    let h = build_v2(&src, &dst);
    assert_eq!(h, build_v2(&plain, &dst));
    assert_eq!(parse_v2(&h).ok().unwrap().addrs, Some((plain, dst)));
}
