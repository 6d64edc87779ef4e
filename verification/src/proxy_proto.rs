//! PROXY protocol headers, v1 (text) and v2 (binary): building them for a
//! backend connection and reading them from an accepted one.
pub mod laws;
pub mod wire;

use crate::decimal::{decimal, parse_unsigned, push_decimal, read_unsigned};
use crate::ip::{ip_text, parse_ip, push_ip, read_ip, Family, IpAddr, IpView, SocketAddr};
use crate::text::{chars_of, parts_n, same_str, split_n, string_of, utf8_str, views};
use vstd::prelude::*;
use vstd::slice::slice_subrange;
use vstd::utf8::*;

verus! {

#[derive(Clone, Copy, Debug, PartialEq, Eq, Structural)]
pub enum ProxyProtocolVersion {
    V1,
    V2,
}

/// Why a header was refused.
#[derive(Clone, Copy, Debug, PartialEq, Eq, Structural)]
pub enum ParseError {
    /// The input ends before the header does.
    UnexpectedEof,
    /// A v1 header exceeds 108 bytes.
    TooLong,
    /// A v1 header is not valid UTF-8.
    NotUtf8,
    /// A v1 header does not start with "PROXY".
    MissingPrefix,
    /// A v1 header is malformed.
    MalformedV1,
    /// The v2 signature does not match.
    BadSignature,
    /// The v2 version field is not 2.
    BadVersion,
    /// The v2 command is neither LOCAL nor PROXY.
    UnknownCommand,
    /// The v2 AF_INET address block is too short.
    ShortInet,
    /// The v2 AF_INET6 address block is too short.
    ShortInet6,
}

/// A header as read: the client and server addresses where it carries any, and
/// the bytes that it takes.
#[derive(Clone, Copy, Debug, PartialEq, Eq)]
pub struct Parsed {
    pub addrs: Option<(SocketAddr, SocketAddr)>,
    pub consumed: usize,
}

/// A header as read, by value.
pub struct ParsedView {
    pub addrs: Option<(AddrView, AddrView)>,
    pub consumed: int,
}

/// A socket address by value.
pub struct AddrView {
    pub ip: IpView,
    pub port: u16,
    pub flowinfo: u32,
    pub scope_id: u32,
}

/// An address with a port, without flow label and scope.
pub open spec fn plain_addr(ip: IpView, port: u16) -> AddrView {
    AddrView { ip, port, flowinfo: 0, scope_id: 0 }
}

/// What a header carries of an address: neither flow label nor scope.
pub open spec fn carried(a: AddrView) -> AddrView {
    plain_addr(a.ip, a.port)
}

impl View for SocketAddr {
    type V = AddrView;

    open spec fn view(&self) -> AddrView {
        AddrView {
            ip: self.ip@,
            port: self.port,
            flowinfo: self.flowinfo,
            scope_id: self.scope_id,
        }
    }
}

impl View for Parsed {
    type V = ParsedView;

    open spec fn view(&self) -> ParsedView {
        ParsedView {
            addrs: match self.addrs {
                Some((s, d)) => Some((s@, d@)),
                None => None,
            },
            consumed: self.consumed as int,
        }
    }
}

/// The outcome of a parse by value.
pub open spec fn outcome(r: Result<Parsed, ParseError>) -> Result<ParsedView, ParseError> {
    match r {
        Ok(p) => Ok(p@),
        Err(e) => Err(e),
    }
}

// -- v1 --------------------------------------------------------------

/// The v1 protocol word of an address.
pub open spec fn v1_proto(ip: IpView) -> Seq<char> {
    match ip {
        IpView::V4(_) => "TCP4"@,
        IpView::V6(_) => "TCP6"@,
    }
}

/// A v1 header without its line end:
/// "PROXY {TCP4|TCP6} {src_ip} {dst_ip} {src_port} {dst_port}".
pub open spec fn v1_line(src: AddrView, dst: AddrView) -> Seq<char> {
    "PROXY"@.push(' ') + (v1_proto(src.ip).push(' ') + (ip_text(src.ip).push(' ') + (ip_text(
        dst.ip,
    ).push(' ') + (decimal(src.port as nat).push(' ') + decimal(dst.port as nat)))))
}

/// A v1 header.
pub open spec fn v1_header(src: AddrView, dst: AddrView) -> Seq<u8> {
    encode_utf8(v1_line(src, dst) + "\r\n"@)
}

pub fn build_v1(src: &SocketAddr, dst: &SocketAddr) -> (r: Vec<u8>)
    ensures
        r@ == v1_header(src@, dst@),
{
    let mut s = String::new();
    s.append("PROXY");
    s.push(' ');
    match src.ip {
        IpAddr::V4(_) => s.append("TCP4"),
        IpAddr::V6(_) => s.append("TCP6"),
    }
    s.push(' ');
    push_ip(&mut s, &src.ip);
    s.push(' ');
    push_ip(&mut s, &dst.ip);
    s.push(' ');
    push_decimal(&mut s, src.port as u64);
    s.push(' ');
    push_decimal(&mut s, dst.port as u64);
    s.append("\r\n");
    assert(s@ =~= v1_line(src@, dst@) + "\r\n"@);
    s.as_str().as_bytes_vec()
}

/// The v1 header for a connection whose addresses are unknown.
pub open spec fn v1_unknown_header() -> Seq<u8> {
    encode_utf8("PROXY UNKNOWN\r\n"@)
}

/// v1 header for a connection whose original addresses are unknown, as where
/// the client connected over a Unix domain socket.
pub fn build_v1_unknown() -> (r: Vec<u8>)
    ensures
        r@ == v1_unknown_header(),
{
    "PROXY UNKNOWN\r\n".as_bytes_vec()
}

/// The most bytes that a v1 header may take.
pub const V1_MAX_LEN: usize = 108;

/// The first place at or after `i` where a carriage return and a line feed
/// stand together, or the length.
pub open spec fn crlf_from(b: Seq<u8>, i: int) -> int
    decreases b.len() - i,
{
    if i < 0 || i + 1 >= b.len() {
        b.len() as int
    } else if b[i] == 0x0d && b[i + 1] == 0x0a {
        i
    } else {
        crlf_from(b, i + 1)
    }
}

/// The addresses that the line of a v1 header carries.
pub open spec fn v1_read_line(line: Seq<char>) -> Result<Option<(AddrView, AddrView)>, ParseError> {
    let f = parts_n(line, ' ', 6);
    if f[0] != "PROXY"@ {
        Err(ParseError::MissingPrefix)
    } else if f.len() > 1 && f[1] == "UNKNOWN"@ {
        Ok(None)
    } else if f.len() < 6 {
        Err(ParseError::MalformedV1)
    } else {
        match (read_unsigned(f[4], 65535), read_unsigned(f[5], 65535)) {
            (Some(sp), Some(dp)) => {
                if f[1] == "TCP4"@ {
                    v1_pair(f[2], f[3], Family::V4, sp as u16, dp as u16)
                } else if f[1] == "TCP6"@ {
                    v1_pair(f[2], f[3], Family::V6, sp as u16, dp as u16)
                } else {
                    Err(ParseError::MalformedV1)
                }
            },
            _ => Err(ParseError::MalformedV1),
        }
    }
}

/// The two addresses of a family with their ports.
pub open spec fn v1_pair(
    src: Seq<char>,
    dst: Seq<char>,
    family: Family,
    sp: u16,
    dp: u16,
) -> Result<Option<(AddrView, AddrView)>, ParseError> {
    match (read_ip(src, family), read_ip(dst, family)) {
        (Some(s), Some(d)) => Ok(
            Some((plain_addr(s, sp), plain_addr(d, dp))),
        ),
        _ => Err(ParseError::MalformedV1),
    }
}

/// What a v1 header at the start of a stream reads as.
pub open spec fn v1_read(b: Seq<u8>) -> Result<ParsedView, ParseError> {
    let e = crlf_from(b, 0);
    if e < b.len() && e + 2 <= V1_MAX_LEN {
        let line = b.take(e);
        if !valid_utf8(line) {
            Err(ParseError::NotUtf8)
        } else {
            match v1_read_line(decode_utf8(line)) {
                Ok(addrs) => Ok(ParsedView { addrs, consumed: e + 2 }),
                Err(err) => Err(err),
            }
        }
    } else if b.len() >= V1_MAX_LEN {
        Err(ParseError::TooLong)
    } else {
        Err(ParseError::UnexpectedEof)
    }
}

/// The error of a malformed v1 header.
pub fn bad_v1() -> (r: ParseError)
    ensures
        r == ParseError::MalformedV1,
{
    ParseError::MalformedV1
}

fn parse_pair(src: &[char], dst: &[char], family: Family, sp: u16, dp: u16) -> (r: Result<
    Option<(SocketAddr, SocketAddr)>,
    ParseError,
>)
    ensures
        match r {
            Ok(Some((s, d))) => v1_pair(src@, dst@, family, sp, dp) == Ok::<
                Option<(AddrView, AddrView)>,
                ParseError,
            >(Some((s@, d@))),
            Ok(None) => false,
            Err(e) => v1_pair(src@, dst@, family, sp, dp) == Err::<
                Option<(AddrView, AddrView)>,
                ParseError,
            >(e),
        },
{
    match (parse_ip(src, family), parse_ip(dst, family)) {
        (Some(s), Some(d)) => Ok(
            Some((SocketAddr::new(s, sp), SocketAddr::new(d, dp))),
        ),
        _ => Err(bad_v1()),
    }
}

fn same_chars(s: &[char], t: &str) -> (r: bool)
    ensures
        r == (s@ == t@),
{
    same_str(string_of(s).as_str(), t)
}

fn parse_v1_line(line: &str) -> (r: Result<Option<(SocketAddr, SocketAddr)>, ParseError>)
    ensures
        match r {
            Ok(Some((s, d))) => v1_read_line(line@) == Ok::<
                Option<(AddrView, AddrView)>,
                ParseError,
            >(Some((s@, d@))),
            Ok(None) => v1_read_line(line@) == Ok::<Option<(AddrView, AddrView)>, ParseError>(None),
            Err(e) => v1_read_line(line@) == Err::<Option<(AddrView, AddrView)>, ParseError>(e),
        },
{
    let cs = chars_of(line);
    let f = split_n(cs.as_slice(), ' ', 6);
    let ghost ff = parts_n(line@, ' ', 6);
    let n: usize = f.len();
    assert(ff.len() == n);
    assert forall|i: int| 0 <= i < n implies #[trigger] ff[i] == f@[i]@ by {
        assert(views(f@)[i] == f@[i]@);
    }
    if !same_chars(f[0], "PROXY") {
        return Err(ParseError::MissingPrefix);
    }
    if n > 1 && same_chars(f[1], "UNKNOWN") {
        return Ok(None);
    }
    if n < 6 {
        return Err(bad_v1());
    }
    match (parse_unsigned(f[4], 65535), parse_unsigned(f[5], 65535)) {
        (Some(sp), Some(dp)) => {
            if same_chars(f[1], "TCP4") {
                parse_pair(f[2], f[3], Family::V4, sp as u16, dp as u16)
            } else if same_chars(f[1], "TCP6") {
                parse_pair(f[2], f[3], Family::V6, sp as u16, dp as u16)
            } else {
                Err(bad_v1())
            }
        },
        _ => Err(bad_v1()),
    }
}

/// What to do after the bytes of a v1 header that were read so far.
#[derive(Clone, Copy, Debug, PartialEq, Eq, Structural)]
pub enum V1Read {
    /// Read one more byte.
    More,
    /// The header is complete.
    Done,
    /// The header exceeds the limit.
    TooLong,
}

/// What to do after the bytes `b` of a v1 header.
pub open spec fn v1_progress(b: Seq<u8>) -> V1Read {
    if b.len() >= 2 && b[b.len() - 2] == 0x0d && b[b.len() - 1] == 0x0a {
        V1Read::Done
    } else if b.len() >= V1_MAX_LEN {
        V1Read::TooLong
    } else {
        V1Read::More
    }
}

/// Decides, after each byte of a v1 header, whether to read another one. A
/// stream is read byte by byte so that nothing behind the header is taken.
pub fn v1_next(b: &[u8]) -> (r: V1Read)
    ensures
        r == v1_progress(b@),
{
    let n: usize = b.len();
    if n >= 2 && b[n - 2] == 0x0d && b[n - 1] == 0x0a {
        V1Read::Done
    } else if n >= V1_MAX_LEN {
        V1Read::TooLong
    } else {
        V1Read::More
    }
}

/// Reads the v1 header at the start of a stream.
pub fn parse_v1(input: &[u8]) -> (r: Result<Parsed, ParseError>)
    ensures
        outcome(r) == v1_read(input@),
{
    let n: usize = input.len();
    let mut i: usize = 0;
    while i < n && i + 1 < n && !(input[i] == 0x0d && input[i + 1] == 0x0a)
        invariant
            n == input@.len(),
            i <= n,
            crlf_from(input@, 0) == crlf_from(input@, i as int),
        decreases n - i,
    {
        i = i + 1;
    }
    if i < n && i + 1 < n && i <= V1_MAX_LEN - 2 {
        let raw = slice_subrange(input, 0, i);
        assert(raw@ =~= input@.take(i as int));
        match utf8_str(raw) {
            Some(line) => {
                proof {
                    encode_utf8_decode_utf8(line@);
                }
                match parse_v1_line(line) {
                    Ok(addrs) => Ok(Parsed { addrs, consumed: i + 2 }),
                    Err(e) => Err(e),
                }
            },
            None => Err(ParseError::NotUtf8),
        }
    } else if n >= V1_MAX_LEN {
        Err(ParseError::TooLong)
    } else {
        Err(ParseError::UnexpectedEof)
    }
}

// -- v2 --------------------------------------------------------------

/// The signature that marks a v2 header.
pub open spec fn v2_signature() -> Seq<u8> {
    seq![0x0du8, 0x0a, 0x0d, 0x0a, 0x00, 0x0d, 0x0a, 0x51, 0x55, 0x49, 0x54, 0x0a]
}

/// The fixed 12-byte signature that marks a v2 header.
pub fn signature() -> (r: Vec<u8>)
    ensures
        r@ == v2_signature(),
{
    let r: Vec<u8> = vec![0x0d, 0x0a, 0x0d, 0x0a, 0x00, 0x0d, 0x0a, 0x51, 0x55, 0x49, 0x54, 0x0a];
    assert(r@ =~= v2_signature());
    r
}

/// A 16-bit number in network byte order.
pub open spec fn be16(n: u16) -> Seq<u8> {
    seq![(n / 256) as u8, (n % 256) as u8]
}

/// The octets of IPv6 segments in network byte order.
pub open spec fn segment_octets(s: Seq<u16>) -> Seq<u8> {
    Seq::new(
        16,
        |i: int|
            if i % 2 == 0 {
                (s[i / 2] / 256) as u8
            } else {
                (s[i / 2] % 256) as u8
            },
    )
}

/// The family byte, block length and address block of a v2 header. Addresses
/// of different families are not sent.
pub open spec fn v2_block(src: AddrView, dst: AddrView) -> Seq<u8> {
    match (src.ip, dst.ip) {
        (IpView::V4(s), IpView::V4(d)) => seq![0x11u8] + be16(12) + s + d + be16(src.port) + be16(
            dst.port,
        ),
        (IpView::V6(s), IpView::V6(d)) => seq![0x21u8] + be16(36) + segment_octets(s)
            + segment_octets(d) + be16(src.port) + be16(dst.port),
        _ => seq![0x00u8] + be16(0),
    }
}

/// A v2 header: the signature, version 2 with the PROXY command, the block.
pub open spec fn v2_header(src: AddrView, dst: AddrView) -> Seq<u8> {
    v2_signature() + seq![0x21u8] + v2_block(src, dst)
}

fn push_be16(out: &mut Vec<u8>, n: u16)
    ensures
        final(out)@ == old(out)@ + be16(n),
{
    out.push((n / 256) as u8);
    out.push((n % 256) as u8);
    assert(out@ =~= old(out)@ + be16(n));
}

fn push_v4_octets(out: &mut Vec<u8>, o: &[u8; 4])
    ensures
        final(out)@ == old(out)@ + o@,
{
    out.push(o[0]);
    out.push(o[1]);
    out.push(o[2]);
    out.push(o[3]);
    assert(out@ =~= old(out)@ + o@);
}

fn push_segments(out: &mut Vec<u8>, s: &[u16; 8])
    ensures
        final(out)@ == old(out)@ + segment_octets(s@),
{
    let mut i: usize = 0;
    while i < 8
        invariant
            i <= 8,
            out@ == old(out)@ + segment_octets(s@).take(2 * i as int),
        decreases 8 - i,
    {
        push_be16(out, s[i]);
        i = i + 1;
        assert(out@ =~= old(out)@ + segment_octets(s@).take(2 * i as int));
    }
    assert(segment_octets(s@).take(16) =~= segment_octets(s@));
}

pub fn build_v2(src: &SocketAddr, dst: &SocketAddr) -> (r: Vec<u8>)
    ensures
        r@ == v2_header(src@, dst@),
{
    let mut buf = signature();
    buf.push(0x21);
    match (src.ip, dst.ip) {
        (IpAddr::V4(s), IpAddr::V4(d)) => {
            buf.push(0x11);
            push_be16(&mut buf, 12);
            push_v4_octets(&mut buf, &s);
            push_v4_octets(&mut buf, &d);
            push_be16(&mut buf, src.port);
            push_be16(&mut buf, dst.port);
        },
        (IpAddr::V6(s), IpAddr::V6(d)) => {
            buf.push(0x21);
            push_be16(&mut buf, 36);
            push_segments(&mut buf, &s);
            push_segments(&mut buf, &d);
            push_be16(&mut buf, src.port);
            push_be16(&mut buf, dst.port);
        },
        _ => {
            buf.push(0x00);
            push_be16(&mut buf, 0);
        },
    }
    assert(buf@ =~= v2_header(src@, dst@));
    buf
}

/// A header of either version.
pub open spec fn proxy_header(version: ProxyProtocolVersion, src: AddrView, dst: AddrView) -> Seq<u8> {
    match version {
        ProxyProtocolVersion::V1 => v1_header(src, dst),
        ProxyProtocolVersion::V2 => v2_header(src, dst),
    }
}

/// Builds the header to prepend to a backend connection. `src` is the original
/// client address and `dst` the local address that the client connected to.
pub fn build_header(version: ProxyProtocolVersion, src: &SocketAddr, dst: &SocketAddr) -> (r: Vec<
    u8,
>)
    ensures
        r@ == proxy_header(version, src@, dst@),
{
    match version {
        ProxyProtocolVersion::V1 => build_v1(src, dst),
        ProxyProtocolVersion::V2 => build_v2(src, dst),
    }
}

/// The v2 header without addresses.
pub open spec fn v2_unspec_header() -> Seq<u8> {
    v2_signature() + seq![0x21u8, 0x00u8] + be16(0)
}

/// v2 UNSPEC header: the PROXY command with no address block, for a peer on a
/// Unix socket where no paths are at hand.
pub fn build_v2_unspec() -> (r: Vec<u8>)
    ensures
        r@ == v2_unspec_header(),
{
    let mut buf = signature();
    buf.push(0x21);
    buf.push(0x00);
    push_be16(&mut buf, 0);
    assert(buf@ =~= v2_unspec_header());
    buf
}

/// A socket path in a 108-byte field, cut to 107 bytes and filled up with
/// zeros; an unknown path is all zeros.
pub open spec fn path_field(path: Option<Seq<u8>>) -> Seq<u8> {
    Seq::new(
        108,
        |i: int|
            match path {
                Some(p) => if i < p.len() && i < 107 {
                    p[i]
                } else {
                    0
                },
                None => 0,
            },
    )
}

/// The v2 header with Unix socket paths.
pub open spec fn v2_unix_header(src: Option<Seq<u8>>, dst: Option<Seq<u8>>) -> Seq<u8> {
    v2_signature() + seq![0x21u8, 0x31u8] + be16(216) + path_field(src) + path_field(dst)
}

/// The bytes of an optional path.
pub open spec fn bytes_of(path: Option<&[u8]>) -> Option<Seq<u8>> {
    match path {
        Some(p) => Some(p@),
        None => None,
    }
}

fn push_path(out: &mut Vec<u8>, path: Option<&[u8]>)
    ensures
        final(out)@ == old(out)@ + path_field(bytes_of(path)),
{
    let mut i: usize = 0;
    while i < 108
        invariant
            i <= 108,
            out@ == old(out)@ + path_field(bytes_of(path)).take(i as int),
        decreases 108 - i,
    {
        let x: u8 = match path {
            Some(p) => if i < p.len() && i < 107 {
                p[i]
            } else {
                0
            },
            None => 0,
        };
        out.push(x);
        i = i + 1;
        assert(out@ =~= old(out)@ + path_field(bytes_of(path)).take(i as int));
    }
    assert(path_field(bytes_of(path)).take(108) =~= path_field(bytes_of(path)));
}

/// v2 AF_UNIX header: the PROXY command with a 216-byte block that holds the
/// source and destination socket paths.
pub fn build_v2_unix(src: Option<&[u8]>, dst: Option<&[u8]>) -> (r: Vec<u8>)
    ensures
        r@ == v2_unix_header(bytes_of(src), bytes_of(dst)),
{
    let mut buf = signature();
    buf.push(0x21);
    buf.push(0x31);
    push_be16(&mut buf, 216);
    push_path(&mut buf, src);
    push_path(&mut buf, dst);
    assert(buf@ =~= v2_unix_header(bytes_of(src), bytes_of(dst)));
    buf
}

/// The number that two bytes in network byte order denote.
pub open spec fn from_be16(hi: u8, lo: u8) -> u16 {
    (hi * 256 + lo) as u16
}

fn read_be16(hi: u8, lo: u8) -> (r: u16)
    ensures
        r == from_be16(hi, lo),
{
    hi as u16 * 256 + lo as u16
}

/// The length of the address block, as the 16 fixed bytes of a v2 header give
/// it.
pub open spec fn v2_block_len(b: Seq<u8>) -> Result<int, ParseError> {
    if b.take(12) != v2_signature() {
        Err(ParseError::BadSignature)
    } else if b[12] / 16 != 2 {
        Err(ParseError::BadVersion)
    } else {
        Ok(from_be16(b[14], b[15]) as int)
    }
}

/// Reads the length of the address block out of the 16 fixed bytes.
pub fn v2_len(fixed: &[u8]) -> (r: Result<usize, ParseError>)
    requires
        fixed@.len() >= 16,
    ensures
        match r {
            Ok(n) => v2_block_len(fixed@) == Ok::<int, ParseError>(n as int) && n <= 65535,
            Err(e) => v2_block_len(fixed@) == Err::<int, ParseError>(e),
        },
{
    let sig = signature();
    let mut i: usize = 0;
    while i < 12
        invariant
            i <= 12,
            fixed@.len() >= 16,
            sig@ == v2_signature(),
            forall|j: int| 0 <= j < i ==> fixed@[j] == sig@[j],
        decreases 12 - i,
    {
        if fixed[i] != sig[i] {
            assert(fixed@.take(12)[i as int] != v2_signature()[i as int]);
            return Err(ParseError::BadSignature);
        }
        i = i + 1;
    }
    assert(fixed@.take(12) =~= v2_signature());
    if fixed[12] / 16 != 2 {
        return Err(ParseError::BadVersion);
    }
    Ok(read_be16(fixed[14], fixed[15]) as usize)
}

/// The segments that 16 octets make, from place `at` on.
pub open spec fn octet_segments(b: Seq<u8>, at: int) -> Seq<u16> {
    Seq::new(8, |i: int| from_be16(b[at + 2 * i], b[at + 2 * i + 1]))
}

/// The addresses that a v2 address block `k` carries under a command and a
/// family.
pub open spec fn v2_addrs(command: int, family: int, k: Seq<u8>) -> Result<
    Option<(AddrView, AddrView)>,
    ParseError,
> {
    if command == 0 {
        // LOCAL: the peer keeps its own address.
        Ok(None)
    } else if command != 1 {
        Err(ParseError::UnknownCommand)
    } else if family == 1 {
        if k.len() < 12 {
            Err(ParseError::ShortInet)
        } else {
            Ok(
                Some(
                    (
                        plain_addr(IpView::V4(k.subrange(0, 4)), from_be16(k[8], k[9])),
                        plain_addr(IpView::V4(k.subrange(4, 8)), from_be16(k[10], k[11])),
                    ),
                ),
            )
        }
    } else if family == 2 {
        if k.len() < 36 {
            Err(ParseError::ShortInet6)
        } else {
            Ok(
                Some(
                    (
                        plain_addr(IpView::V6(octet_segments(k, 0)), from_be16(k[32], k[33])),
                        plain_addr(IpView::V6(octet_segments(k, 16)), from_be16(k[34], k[35])),
                    ),
                ),
            )
        }
    } else {
        // UNSPEC, AF_UNIX and any other: no IP addresses.
        Ok(None)
    }
}

/// What a v2 header at the start of a stream reads as.
pub open spec fn v2_read(b: Seq<u8>) -> Result<ParsedView, ParseError> {
    if b.len() < 16 {
        Err(ParseError::UnexpectedEof)
    } else {
        match v2_block_len(b) {
            Err(e) => Err(e),
            Ok(n) => if b.len() < 16 + n {
                Err(ParseError::UnexpectedEof)
            } else {
                match v2_addrs(b[12] as int % 16, b[13] as int / 16, b.subrange(16, 16 + n)) {
                    Ok(addrs) => Ok(ParsedView { addrs, consumed: 16 + n }),
                    Err(e) => Err(e),
                }
            },
        }
    }
}

fn read_segments(k: &[u8], at: usize) -> (r: [u16; 8])
    requires
        at <= 16,
        at + 16 <= k@.len(),
    ensures
        r@ == octet_segments(k@, at as int),
{
    let r: [u16; 8] = [
        read_be16(k[at], k[at + 1]),
        read_be16(k[at + 2], k[at + 3]),
        read_be16(k[at + 4], k[at + 5]),
        read_be16(k[at + 6], k[at + 7]),
        read_be16(k[at + 8], k[at + 9]),
        read_be16(k[at + 10], k[at + 11]),
        read_be16(k[at + 12], k[at + 13]),
        read_be16(k[at + 14], k[at + 15]),
    ];
    assert(r@ =~= octet_segments(k@, at as int));
    r
}

fn parse_v2_block(command: u8, family: u8, k: &[u8]) -> (r: Result<
    Option<(SocketAddr, SocketAddr)>,
    ParseError,
>)
    ensures
        match r {
            Ok(Some((s, d))) => v2_addrs(command as int, family as int, k@) == Ok::<
                Option<(AddrView, AddrView)>,
                ParseError,
            >(Some((s@, d@))),
            Ok(None) => v2_addrs(command as int, family as int, k@) == Ok::<
                Option<(AddrView, AddrView)>,
                ParseError,
            >(None),
            Err(e) => v2_addrs(command as int, family as int, k@) == Err::<
                Option<(AddrView, AddrView)>,
                ParseError,
            >(e),
        },
{
    if command == 0 {
        return Ok(None);
    }
    if command != 1 {
        return Err(ParseError::UnknownCommand);
    }
    if family == 1 {
        if k.len() < 12 {
            return Err(ParseError::ShortInet);
        }
        let s: [u8; 4] = [k[0], k[1], k[2], k[3]];
        let d: [u8; 4] = [k[4], k[5], k[6], k[7]];
        assert(s@ =~= k@.subrange(0, 4));
        assert(d@ =~= k@.subrange(4, 8));
        return Ok(
            Some(
                (
                    SocketAddr::new(IpAddr::V4(s), read_be16(k[8], k[9])),
                    SocketAddr::new(IpAddr::V4(d), read_be16(k[10], k[11])),
                ),
            ),
        );
    }
    if family == 2 {
        if k.len() < 36 {
            return Err(ParseError::ShortInet6);
        }
        let s = read_segments(k, 0);
        let d = read_segments(k, 16);
        return Ok(
            Some(
                (
                    SocketAddr::new(IpAddr::V6(s), read_be16(k[32], k[33])),
                    SocketAddr::new(IpAddr::V6(d), read_be16(k[34], k[35])),
                ),
            ),
        );
    }
    Ok(None)
}

/// Reads the v2 header at the start of a stream.
pub fn parse_v2(input: &[u8]) -> (r: Result<Parsed, ParseError>)
    ensures
        outcome(r) == v2_read(input@),
{
    if input.len() < 16 {
        return Err(ParseError::UnexpectedEof);
    }
    match v2_len(input) {
        Err(e) => Err(e),
        Ok(n) => {
            if input.len() < 16 + n {
                return Err(ParseError::UnexpectedEof);
            }
            let k = slice_subrange(input, 16, 16 + n);
            match parse_v2_block(input[12] % 16, input[13] / 16, k) {
                Ok(addrs) => Ok(Parsed { addrs, consumed: 16 + n }),
                Err(e) => Err(e),
            }
        },
    }
}

/// What a header at the start of a stream reads as.
pub open spec fn read_header(version: ProxyProtocolVersion, b: Seq<u8>) -> Result<
    ParsedView,
    ParseError,
> {
    match version {
        ProxyProtocolVersion::V1 => v1_read(b),
        ProxyProtocolVersion::V2 => v2_read(b),
    }
}

/// Reads the header at the start of a freshly accepted stream. Where it carries
/// no addresses (UNKNOWN, LOCAL, UNSPEC, AF_UNIX) the caller keeps the peer's
/// own address; where it is malformed the caller closes the connection without
/// an answer. The bytes behind the header are left alone.
pub fn parse_incoming(input: &[u8], version: ProxyProtocolVersion) -> (r: Result<
    Parsed,
    ParseError,
>)
    ensures
        outcome(r) == read_header(version, input@),
{
    match version {
        ProxyProtocolVersion::V1 => parse_v1(input),
        ProxyProtocolVersion::V2 => parse_v2(input),
    }
}

} // verus!
