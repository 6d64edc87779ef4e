//! What a header that was built reads back as.
use crate::decimal::{
    decimal, is_digit, law_read_of_decimal, lemma_decimal_digits, read_unsigned,
};
use crate::ip::{ip_text, law_read_of_ip_text, lemma_ip_text_chars, read_ip, Family, IpView};
use crate::proxy_proto::{
    be16, carried, crlf_from, from_be16, octet_segments, path_field, plain_addr, segment_octets,
    v1_header, v1_line, v1_progress, v1_proto, v1_read, v1_read_line, v1_unknown_header, v2_addrs, v2_block,
    v2_block_len, v2_header, v2_read, v2_signature, v2_unix_header, v2_unspec_header, AddrView,
    ParseError, ParsedView, V1Read, V1_MAX_LEN,
};
use crate::text::{find_from, lemma_find_from, lemma_more_parts, lemma_one_part, parts_n};
use vstd::prelude::*;
use vstd::utf8::*;

verus! {

proof fn lemma_crlf_from(b: Seq<u8>, i: int)
    requires
        0 <= i <= b.len(),
    ensures
        i <= crlf_from(b, i) <= b.len(),
        crlf_from(b, i) < b.len() ==> crlf_from(b, i) + 1 < b.len() && b[crlf_from(b, i)] == 0x0d
            && b[crlf_from(b, i) + 1] == 0x0a,
        forall|j: int|
            i <= j < crlf_from(b, i) && j + 1 < b.len() ==> !(#[trigger] b[j] == 0x0d && b[j + 1]
                == 0x0a),
    decreases b.len() - i,
{
    if i + 1 < b.len() && !(b[i] == 0x0d && b[i + 1] == 0x0a) {
        lemma_crlf_from(b, i + 1);
    }
}

proof fn lemma_crlf_is(b: Seq<u8>, i: int, r: int)
    requires
        0 <= i <= r,
        r + 1 < b.len(),
        b[r] == 0x0d && b[r + 1] == 0x0a,
        forall|j: int| i <= j < r ==> !(#[trigger] b[j] == 0x0d && b[j + 1] == 0x0a),
    ensures
        crlf_from(b, i) == r,
    decreases r - i,
{
    if i < r {
        lemma_crlf_is(b, i + 1, r);
    }
}

/// Printable ASCII, blanks among it.
spec fn printable(t: Seq<char>) -> bool {
    forall|i: int| 0 <= i < t.len() ==> ' ' <= #[trigger] t[i] < '\x7f'
}

/// Printable ASCII without blanks.
spec fn solid(t: Seq<char>) -> bool {
    forall|i: int| 0 <= i < t.len() ==> ' ' < #[trigger] t[i] < '\x7f'
}

proof fn lemma_solid_has_no_blank(t: Seq<char>)
    requires
        solid(t),
    ensures
        !t.contains(' '),
{
    assert forall|i: int| 0 <= i < t.len() implies t[i] != ' ' by {
        assert(' ' < t[i]);
    }
}

/// A printable line and its end are found at the start of any stream.
proof fn lemma_line_found(line: Seq<char>, rest: Seq<u8>)
    requires
        printable(line),
    ensures
        ({
            let b = encode_utf8(line + "\r\n"@) + rest;
            &&& crlf_from(b, 0) == line.len()
            &&& b.take(line.len() as int) == encode_utf8(line)
            &&& b.len() >= line.len() + 2
            &&& encode_utf8(line + "\r\n"@).len() == line.len() + 2
        }),
{
    reveal_strlit("\r\n");
    let t = line + "\r\n"@;
    let b = encode_utf8(t) + rest;
    assert forall|i: int| 0 <= i < t.len() implies '\0' <= #[trigger] t[i] <= '\u{7f}' by {
        if i < line.len() {
            assert(' ' <= line[i]);
        }
    }
    assert(is_ascii_chars(t));
    assert(is_ascii_chars(line)) by {
        assert forall|i: int| 0 <= i < line.len() implies '\0' <= #[trigger] line[i] <= '\u{7f}' by {
            assert(t[i] == line[i]);
        }
    }
    is_ascii_chars_encode_utf8(t);
    is_ascii_chars_encode_utf8(line);
    let n = line.len() as int;
    assert forall|j: int| 0 <= j < n implies !(#[trigger] b[j] == 0x0d && b[j + 1] == 0x0a) by {
        assert(b[j] == t[j] as u8);
        assert(t[j] == line[j]);
        assert(' ' <= line[j]);
    }
    assert(b[n] == t[n] as u8);
    assert(b[n + 1] == t[n + 1] as u8);
    lemma_crlf_is(b, 0, n);
    assert(b.take(n) =~= encode_utf8(line)) by {
        assert forall|j: int| 0 <= j < n implies b[j] == encode_utf8(line)[j] by {
            assert(b[j] == t[j] as u8);
            assert(t[j] == line[j]);
        }
    }
}

proof fn lemma_port_text(port: u16)
    ensures
        solid(decimal(port as nat)),
        0 < decimal(port as nat).len() <= 5,
{
    lemma_decimal_digits(port as nat);
    let t = decimal(port as nat);
    assert forall|i: int| 0 <= i < t.len() implies ' ' < #[trigger] t[i] < '\x7f' by {
        assert(is_digit(t[i]));
    }
}

proof fn lemma_joint_is_printable(a: Seq<char>, b: Seq<char>)
    requires
        solid(a),
        printable(b),
    ensures
        printable(a.push(' ') + b),
{
    let t = a.push(' ') + b;
    assert forall|i: int| 0 <= i < t.len() implies ' ' <= #[trigger] t[i] < '\x7f' by {
        if i < a.len() {
            assert(t[i] == a[i]);
        } else if i > a.len() {
            assert(t[i] == b[i - a.len() - 1]);
        }
    }
}

proof fn lemma_v1_words(ip: IpView)
    ensures
        solid("PROXY"@),
        "PROXY"@.len() == 5,
        solid(v1_proto(ip)),
        v1_proto(ip).len() == 4,
        v1_proto(ip) != "UNKNOWN"@,
        "TCP6"@ != "TCP4"@,
{
    reveal_strlit("PROXY");
    reveal_strlit("TCP4");
    reveal_strlit("TCP6");
    reveal_strlit("UNKNOWN");
    assert("TCP4"@[3] == '4');
    assert("TCP6"@[3] == '6');
}

/// A v1 header between addresses of one family reads back as these addresses, as far
/// as a header carries them, whatever follows it in the stream, and reading takes
/// exactly the header.
pub proof fn law_v1_round_trip(src: AddrView, dst: AddrView, rest: Seq<u8>)
    requires
        src.ip.wf(),
        dst.ip.wf(),
        src.ip.family() == dst.ip.family(),
    ensures
        v1_read(v1_header(src, dst) + rest) == Ok::<ParsedView, ParseError>(
            ParsedView {
                addrs: Some((carried(src), carried(dst))),
                consumed: v1_header(src, dst).len() as int,
            },
        ),
{
    let w = "PROXY"@;
    let proto = v1_proto(src.ip);
    let a = ip_text(src.ip);
    let b = ip_text(dst.ip);
    let p = decimal(src.port as nat);
    let q = decimal(dst.port as nat);
    lemma_v1_words(src.ip);
    lemma_ip_text_chars(src.ip);
    lemma_ip_text_chars(dst.ip);
    lemma_port_text(src.port);
    lemma_port_text(dst.port);
    let l4 = p.push(' ') + q;
    let l3 = b.push(' ') + l4;
    let l2 = a.push(' ') + l3;
    let l1 = proto.push(' ') + l2;
    let line = v1_line(src, dst);
    assert(line == w.push(' ') + l1);
    lemma_joint_is_printable(p, q);
    lemma_joint_is_printable(b, l4);
    lemma_joint_is_printable(a, l3);
    lemma_joint_is_printable(proto, l2);
    lemma_joint_is_printable(w, l1);
    lemma_line_found(line, rest);
    lemma_solid_has_no_blank(w);
    lemma_solid_has_no_blank(proto);
    lemma_solid_has_no_blank(a);
    lemma_solid_has_no_blank(b);
    lemma_solid_has_no_blank(p);
    lemma_solid_has_no_blank(q);
    lemma_one_part(q, ' ');
    lemma_more_parts(p, ' ', q);
    lemma_more_parts(b, ' ', l4);
    lemma_more_parts(a, ' ', l3);
    lemma_more_parts(proto, ' ', l2);
    lemma_more_parts(w, ' ', l1);
    assert(parts_n(q, ' ', 1) == seq![q]);
    assert(parts_n(l4, ' ', 2) == seq![p] + parts_n(q, ' ', 1));
    assert(parts_n(l3, ' ', 3) == seq![b] + parts_n(l4, ' ', 2));
    assert(parts_n(l2, ' ', 4) == seq![a] + parts_n(l3, ' ', 3));
    assert(parts_n(l1, ' ', 5) == seq![proto] + parts_n(l2, ' ', 4));
    let f = parts_n(line, ' ', 6);
    assert(f =~= seq![w, proto, a, b, p, q]);
    law_read_of_decimal(src.port as nat, 65535);
    law_read_of_decimal(dst.port as nat, 65535);
    law_read_of_ip_text(src.ip);
    law_read_of_ip_text(dst.ip);
    assert(v1_read_line(line) == Ok::<Option<(AddrView, AddrView)>, ParseError>(
        Some((carried(src), carried(dst))),
    ));
    encode_utf8_valid_utf8(line);
    encode_utf8_decode_utf8(line);
    assert(line.len() <= 102);
}

/// A v1 header is this line of text: the word of the source's family, both addresses and
/// both ports, the source's first.
pub proof fn law_v1_header_is_a_line(src: AddrView, dst: AddrView)
    ensures
        src.ip is V4 ==> v1_header(src, dst) == encode_utf8(
            "PROXY TCP4 "@ + ip_text(src.ip) + " "@ + ip_text(dst.ip) + " "@ + decimal(
                src.port as nat,
            ) + " "@ + decimal(dst.port as nat) + "\r\n"@,
        ),
        src.ip is V6 ==> v1_header(src, dst) == encode_utf8(
            "PROXY TCP6 "@ + ip_text(src.ip) + " "@ + ip_text(dst.ip) + " "@ + decimal(
                src.port as nat,
            ) + " "@ + decimal(dst.port as nat) + "\r\n"@,
        ),
        v1_unknown_header() == encode_utf8("PROXY UNKNOWN\r\n"@),
{
    reveal_strlit("PROXY");
    reveal_strlit("TCP4");
    reveal_strlit("TCP6");
    reveal_strlit(" ");
    reveal_strlit("PROXY TCP4 ");
    reveal_strlit("PROXY TCP6 ");
    let a = ip_text(src.ip);
    let b = ip_text(dst.ip);
    let p = decimal(src.port as nat);
    let q = decimal(dst.port as nat);
    let line = v1_line(src, dst);
    if src.ip is V4 {
        assert(line =~= "PROXY TCP4 "@ + a + " "@ + b + " "@ + p + " "@ + q);
    } else {
        assert(line =~= "PROXY TCP6 "@ + a + " "@ + b + " "@ + p + " "@ + q);
    }
}

/// A line of six words is read by its words: the family, the addresses and the ports, the
/// source's first. Any of them that makes no sense refuses the header.
pub proof fn law_v1_reads_words(
    family: Family,
    a: Seq<char>,
    b: Seq<char>,
    p: Seq<char>,
    q: Seq<char>,
    rest: Seq<u8>,
)
    requires
        forall|i: int| 0 <= i < a.len() ==> ' ' < #[trigger] a[i] < '\x7f',
        forall|i: int| 0 <= i < b.len() ==> ' ' < #[trigger] b[i] < '\x7f',
        forall|i: int| 0 <= i < p.len() ==> ' ' < #[trigger] p[i] < '\x7f',
        forall|i: int| 0 <= i < q.len() ==> ' ' < #[trigger] q[i] < '\x7f',
        a.len() + b.len() + p.len() + q.len() <= 92,
    ensures
        ({
            let word = if family == Family::V4 {
                "PROXY TCP4 "@
            } else {
                "PROXY TCP6 "@
            };
            let h = encode_utf8(word + a + " "@ + b + " "@ + p + " "@ + q + "\r\n"@);
            v1_read(h + rest) == (match (
                read_ip(a, family),
                read_ip(b, family),
                read_unsigned(p, 65535),
                read_unsigned(q, 65535),
            ) {
                (Some(src), Some(dst), Some(sp), Some(dp)) => Ok::<ParsedView, ParseError>(
                    ParsedView {
                        addrs: Some(
                            (
                                AddrView { ip: src, port: sp as u16, flowinfo: 0, scope_id: 0 },
                                AddrView { ip: dst, port: dp as u16, flowinfo: 0, scope_id: 0 },
                            ),
                        ),
                        consumed: h.len() as int,
                    },
                ),
                _ => Err(ParseError::MalformedV1),
            })
        }),
{
    let w = "PROXY"@;
    let proto = if family == Family::V4 {
        "TCP4"@
    } else {
        "TCP6"@
    };
    lemma_v1_words(
        if family == Family::V4 {
            IpView::V4(Seq::empty())
        } else {
            IpView::V6(Seq::empty())
        },
    );
    reveal_strlit("PROXY");
    reveal_strlit("TCP4");
    reveal_strlit("TCP6");
    reveal_strlit(" ");
    reveal_strlit("PROXY TCP4 ");
    reveal_strlit("PROXY TCP6 ");
    let l4 = p.push(' ') + q;
    let l3 = b.push(' ') + l4;
    let l2 = a.push(' ') + l3;
    let l1 = proto.push(' ') + l2;
    let line = w.push(' ') + l1;
    let word = if family == Family::V4 {
        "PROXY TCP4 "@
    } else {
        "PROXY TCP6 "@
    };
    assert(line + "\r\n"@ =~= word + a + " "@ + b + " "@ + p + " "@ + q + "\r\n"@);
    lemma_joint_is_printable(p, q);
    lemma_joint_is_printable(b, l4);
    lemma_joint_is_printable(a, l3);
    lemma_joint_is_printable(proto, l2);
    lemma_joint_is_printable(w, l1);
    lemma_line_found(line, rest);
    lemma_solid_has_no_blank(w);
    lemma_solid_has_no_blank(proto);
    lemma_solid_has_no_blank(a);
    lemma_solid_has_no_blank(b);
    lemma_solid_has_no_blank(p);
    lemma_solid_has_no_blank(q);
    lemma_one_part(q, ' ');
    lemma_more_parts(p, ' ', q);
    lemma_more_parts(b, ' ', l4);
    lemma_more_parts(a, ' ', l3);
    lemma_more_parts(proto, ' ', l2);
    lemma_more_parts(w, ' ', l1);
    assert(parts_n(q, ' ', 1) == seq![q]);
    assert(parts_n(l4, ' ', 2) == seq![p] + parts_n(q, ' ', 1));
    assert(parts_n(l3, ' ', 3) == seq![b] + parts_n(l4, ' ', 2));
    assert(parts_n(l2, ' ', 4) == seq![a] + parts_n(l3, ' ', 3));
    assert(parts_n(l1, ' ', 5) == seq![proto] + parts_n(l2, ' ', 4));
    let f = parts_n(line, ' ', 6);
    assert(f =~= seq![w, proto, a, b, p, q]);
    encode_utf8_valid_utf8(line);
    encode_utf8_decode_utf8(line);
    assert(line.len() <= 106);
}

/// A v1 header ends within 108 bytes. Without a line end there, a stream that is that long
/// is refused, and a shorter one is cut off.
pub proof fn law_v1_needs_a_line_end(b: Seq<u8>)
    requires
        forall|j: int|
            0 <= j < 107 && j + 1 < b.len() ==> !(#[trigger] b[j] == 0x0d && b[j + 1] == 0x0a),
    ensures
        b.len() >= 108 ==> v1_read(b) == Err::<ParsedView, ParseError>(ParseError::TooLong),
        b.len() < 108 ==> v1_read(b) == Err::<ParsedView, ParseError>(ParseError::UnexpectedEof),
{
    lemma_crlf_from(b, 0);
    let e = crlf_from(b, 0);
    if e < b.len() && e < 107 {
        assert(b[e] == 0x0d && b[e + 1] == 0x0a);
    }
}

/// A line that does not begin with the word PROXY is no v1 header.
pub proof fn law_v1_begins_with_its_word(line: Seq<char>, rest: Seq<u8>)
    requires
        forall|i: int| 0 <= i < line.len() ==> ' ' <= #[trigger] line[i] < '\x7f',
        line.len() <= 106,
        line != "PROXY"@,
        !(line.len() > 5 && line.take(6) == "PROXY "@),
    ensures
        v1_read(encode_utf8(line + "\r\n"@) + rest) == Err::<ParsedView, ParseError>(
            ParseError::MissingPrefix,
        ),
{
    reveal_strlit("PROXY");
    reveal_strlit("PROXY ");
    lemma_line_found(line, rest);
    encode_utf8_valid_utf8(line);
    encode_utf8_decode_utf8(line);
    let j = find_from(line, ' ', 0);
    lemma_find_from(line, ' ', 0);
    if j < line.len() {
        if line.take(j) == "PROXY"@ {
            assert(line.take(j).len() == j);
            assert(line.take(6) =~= "PROXY "@) by {
                assert(line.take(6)[5] == ' ');
                assert forall|i: int| 0 <= i < 5 implies line.take(6)[i] == "PROXY "@[i] by {
                    assert(line.take(j)[i] == line[i]);
                }
            }
        }
    }
}

/// The v1 header for unknown addresses reads back as no addresses.
pub proof fn law_v1_unknown_reads_as_none(rest: Seq<u8>)
    ensures
        v1_read(v1_unknown_header() + rest) == Ok::<ParsedView, ParseError>(
            ParsedView { addrs: None, consumed: v1_unknown_header().len() as int },
        ),
{
    reveal_strlit("PROXY UNKNOWN\r\n");
    reveal_strlit("PROXY");
    reveal_strlit("UNKNOWN");
    reveal_strlit("\r\n");
    let w = "PROXY"@;
    let u = "UNKNOWN"@;
    let line = w.push(' ') + u;
    assert(line + "\r\n"@ =~= "PROXY UNKNOWN\r\n"@);
    lemma_joint_is_printable(w, u);
    lemma_line_found(line, rest);
    lemma_solid_has_no_blank(w);
    lemma_solid_has_no_blank(u);
    lemma_one_part(u, ' ');
    lemma_more_parts(w, ' ', u);
    assert(parts_n(u, ' ', 5) == seq![u]);
    let f = parts_n(line, ' ', 6);
    assert(f =~= seq![w, u]);
    encode_utf8_valid_utf8(line);
    encode_utf8_decode_utf8(line);
}

/// Reading a v1 header byte by byte asks for more until the header is complete
/// and stops there, so nothing behind the header is taken from the stream.
pub proof fn law_v1_stops_behind_header(b: Seq<u8>, k: int)
    requires
        crlf_from(b, 0) < b.len(),
        crlf_from(b, 0) + 2 <= V1_MAX_LEN,
        0 <= k <= crlf_from(b, 0) + 2,
    ensures
        v1_progress(b.take(k)) == (if k == crlf_from(b, 0) + 2 {
            V1Read::Done
        } else {
            V1Read::More
        }),
{
    lemma_crlf_from(b, 0);
    let t = b.take(k);
    if 2 <= k < crlf_from(b, 0) + 2 {
        assert(t[k - 2] == b[k - 2]);
        assert(t[k - 1] == b[k - 2 + 1]);
    }
}

proof fn lemma_be16(n: u16)
    ensures
        from_be16(be16(n)[0], be16(n)[1]) == n,
{
}

proof fn lemma_segments_back(s: Seq<u16>, k: Seq<u8>, at: int)
    requires
        s.len() == 8,
        0 <= at,
        at + 16 <= k.len(),
        k.subrange(at, at + 16) == segment_octets(s),
    ensures
        octet_segments(k, at) == s,
{
    assert forall|i: int| 0 <= i < 8 implies octet_segments(k, at)[i] == s[i] by {
        let o = segment_octets(s);
        assert(k[at + 2 * i] == k.subrange(at, at + 16)[2 * i]);
        assert(k[at + 2 * i + 1] == k.subrange(at, at + 16)[2 * i + 1]);
        assert((2 * i) % 2 == 0 && (2 * i) / 2 == i);
        assert((2 * i + 1) % 2 == 1 && (2 * i + 1) / 2 == i);
        assert(o[2 * i] == (s[i] / 256) as u8);
        assert(o[2 * i + 1] == (s[i] % 256) as u8);
    }
    assert(octet_segments(k, at) =~= s);
}

/// The fixed part of a v2 header is found at the start of any stream.
proof fn lemma_v2_fixed(family: u8, n: u16, block: Seq<u8>, rest: Seq<u8>)
    requires
        block.len() == n,
    ensures
        ({
            let b = v2_signature() + seq![0x21u8] + (seq![family] + be16(n) + block) + rest;
            &&& b.len() >= 16 + n
            &&& v2_block_len(b) == Ok::<int, ParseError>(n as int)
            &&& b[12] == 0x21
            &&& b[13] == family
            &&& b.subrange(16, 16 + n) == block
        }),
{
    let b = v2_signature() + seq![0x21u8] + (seq![family] + be16(n) + block) + rest;
    assert(b.take(12) =~= v2_signature());
    assert(b.subrange(16, 16 + n) =~= block);
    lemma_be16(n);
    assert(b[14] == be16(n)[0]);
    assert(b[15] == be16(n)[1]);
}

/// What a header made of a fixed part and a block reads as.
proof fn lemma_v2_whole(family: u8, n: u16, block: Seq<u8>, rest: Seq<u8>)
    requires
        block.len() == n,
    ensures
        ({
            let h = v2_signature() + seq![0x21u8] + (seq![family] + be16(n) + block);
            &&& h.len() == 16 + n
            &&& v2_read(h + rest) == (match v2_addrs(1, family as int / 16, block) {
                Ok(addrs) => Ok::<ParsedView, ParseError>(ParsedView { addrs, consumed: 16 + n }),
                Err(e) => Err(e),
            })
        }),
{
    lemma_v2_fixed(family, n, block, rest);
}

proof fn lemma_inet_block(s: Seq<u8>, d: Seq<u8>, sp: u16, dp: u16)
    requires
        s.len() == 4,
        d.len() == 4,
    ensures
        ({
            let k = s + d + be16(sp) + be16(dp);
            v2_addrs(1, 1, k) == Ok::<Option<(AddrView, AddrView)>, ParseError>(
                Some(
                    (
                        plain_addr(IpView::V4(s), sp),
                        plain_addr(IpView::V4(d), dp),
                    ),
                ),
            )
        }),
{
    let k = s + d + be16(sp) + be16(dp);
    lemma_be16(sp);
    lemma_be16(dp);
    assert(k.subrange(0, 4) =~= s);
    assert(k.subrange(4, 8) =~= d);
}

proof fn lemma_inet6_block(s: Seq<u16>, d: Seq<u16>, sp: u16, dp: u16)
    requires
        s.len() == 8,
        d.len() == 8,
    ensures
        ({
            let k = segment_octets(s) + segment_octets(d) + be16(sp) + be16(dp);
            k.len() == 36 && v2_addrs(1, 2, k) == Ok::<Option<(AddrView, AddrView)>, ParseError>(
                Some(
                    (
                        plain_addr(IpView::V6(s), sp),
                        plain_addr(IpView::V6(d), dp),
                    ),
                ),
            )
        }),
{
    let k = segment_octets(s) + segment_octets(d) + be16(sp) + be16(dp);
    lemma_be16(sp);
    lemma_be16(dp);
    assert(k.subrange(0, 16) =~= segment_octets(s));
    assert(k.subrange(16, 32) =~= segment_octets(d));
    lemma_segments_back(s, k, 0);
    lemma_segments_back(d, k, 16);
}

/// A v2 header between addresses of one family reads back as these addresses, as far
/// as a header carries them, whatever follows it in the stream, and reading takes
/// exactly the header; between addresses of different families it reads as no addresses.
pub proof fn law_v2_round_trip(src: AddrView, dst: AddrView, rest: Seq<u8>)
    requires
        src.ip.wf(),
        dst.ip.wf(),
    ensures
        v2_read(v2_header(src, dst) + rest) == Ok::<ParsedView, ParseError>(
            ParsedView {
                addrs: if src.ip.family() == dst.ip.family() {
                    Some((carried(src), carried(dst)))
                } else {
                    None
                },
                consumed: v2_header(src, dst).len() as int,
            },
        ),
{
    match (src.ip, dst.ip) {
        (IpView::V4(s), IpView::V4(d)) => {
            let k = s + d + be16(src.port) + be16(dst.port);
            assert(v2_block(src, dst) =~= seq![0x11u8] + be16(12) + k);
            lemma_v2_whole(0x11, 12, k, rest);
            lemma_inet_block(s, d, src.port, dst.port);
        },
        (IpView::V6(s), IpView::V6(d)) => {
            let k = segment_octets(s) + segment_octets(d) + be16(src.port) + be16(dst.port);
            assert(v2_block(src, dst) =~= seq![0x21u8] + be16(36) + k);
            lemma_inet6_block(s, d, src.port, dst.port);
            lemma_v2_whole(0x21, 36, k, rest);
        },
        _ => {
            let k = Seq::<u8>::empty();
            assert(v2_block(src, dst) =~= seq![0x00u8] + be16(0) + k);
            lemma_v2_whole(0x00, 0, k, rest);
        },
    }
}

/// The v2 header without addresses reads back as none.
pub proof fn law_v2_unspec_reads_as_none(rest: Seq<u8>)
    ensures
        v2_read(v2_unspec_header() + rest) == Ok::<ParsedView, ParseError>(
            ParsedView { addrs: None, consumed: 16 },
        ),
{
    let k = Seq::<u8>::empty();
    assert(v2_unspec_header() =~= v2_signature() + seq![0x21u8] + (seq![0x00u8] + be16(0) + k));
    lemma_v2_fixed(0x00, 0, k, rest);
}

/// The v2 header with Unix socket paths reads back as no addresses.
pub proof fn law_v2_unix_reads_as_none(
    src: Option<Seq<u8>>,
    dst: Option<Seq<u8>>,
    rest: Seq<u8>,
)
    ensures
        v2_read(v2_unix_header(src, dst) + rest) == Ok::<ParsedView, ParseError>(
            ParsedView { addrs: None, consumed: 232 },
        ),
{
    let k = path_field(src) + path_field(dst);
    assert(v2_unix_header(src, dst) =~= v2_signature() + seq![0x21u8] + (seq![0x31u8] + be16(216)
        + k));
    lemma_v2_fixed(0x31, 216, k, rest);
}

/// A path field always ends in a zero byte, so the path in it is terminated.
pub proof fn law_path_field_is_terminated(path: Option<Seq<u8>>)
    ensures
        path_field(path).len() == 108,
        path_field(path)[107] == 0,
{
}

} // verus!
