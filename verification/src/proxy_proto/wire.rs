//! What stands in a header, byte by byte, and what the bytes of one are read as.
use crate::ip::{IpAddr, IpView, SocketAddr};
use crate::listener::socket::header_in;
use crate::proxy_proto::{
    carried, outcome, proxy_header, read_header, v1_header, v1_read, v2_header, v2_read,
    v2_signature, v2_unix_header, v2_unspec_header, AddrView, ParseError, Parsed, ParsedView,
    ProxyProtocolVersion,
};
use vstd::prelude::*;

verus! {

/// The bytes of the PROXY protocol's second version up to the command.
pub open spec fn begins_v2(b: Seq<u8>) -> bool {
    &&& b.len() >= 16
    &&& b[0] == 0x0d && b[1] == 0x0a && b[2] == 0x0d && b[3] == 0x0a
    &&& b[4] == 0x00 && b[5] == 0x0d && b[6] == 0x0a && b[7] == 0x51
    &&& b[8] == 0x55 && b[9] == 0x49 && b[10] == 0x54 && b[11] == 0x0a
}

/// The number in two bytes, the high one first.
pub open spec fn number_at(b: Seq<u8>, i: int) -> int {
    b[i] * 256 + b[i + 1]
}

/// A v2 header between IPv6 addresses: every segment stands in it with its high byte
/// first, the source's from byte 16 on and the destination's from byte 32 on, and then
/// the ports.
pub proof fn law_v2_header_of_v6(src: AddrView, dst: AddrView)
    requires
        src.ip.wf() && src.ip is V6,
        dst.ip.wf() && dst.ip is V6,
    ensures
        ({
            let h = v2_header(src, dst);
            &&& h.len() == 52
            &&& begins_v2(h)
            &&& h[12] == 0x21 && h[13] == 0x21
            &&& h[14] == 0 && h[15] == 36
            &&& forall|i: int|
                0 <= i < 8 ==> h[16 + 2 * i] as int * 256 + h[17 + 2 * i] as int ==
                    #[trigger] (src.ip->V6_0)[i]
            &&& forall|i: int|
                0 <= i < 8 ==> h[32 + 2 * i] as int * 256 + h[33 + 2 * i] as int ==
                    #[trigger] (dst.ip->V6_0)[i]
            &&& h[48] as int * 256 + h[49] as int == src.port
            &&& h[50] as int * 256 + h[51] as int == dst.port
        }),
{
    let h = v2_header(src, dst);
    let s = src.ip->V6_0;
    let d = dst.ip->V6_0;
    assert forall|i: int|
        0 <= i < 8 implies h[16 + 2 * i] as int * 256 + h[17 + 2 * i] as int ==
        #[trigger] s[i] by {
        assert((2 * i) % 2 == 0 && (2 * i) / 2 == i);
        assert((2 * i + 1) % 2 == 1 && (2 * i + 1) / 2 == i);
        assert(h[16 + 2 * i] == s[i] / 256);
        assert(h[17 + 2 * i] == s[i] % 256);
    }
    assert forall|i: int|
        0 <= i < 8 implies h[32 + 2 * i] as int * 256 + h[33 + 2 * i] as int ==
        #[trigger] d[i] by {
        assert((2 * i) % 2 == 0 && (2 * i) / 2 == i);
        assert((2 * i + 1) % 2 == 1 && (2 * i + 1) / 2 == i);
        assert(h[32 + 2 * i] == d[i] / 256);
        assert(h[33 + 2 * i] == d[i] % 256);
    }
}

/// A v2 header between IPv4 addresses: the source's octets from byte 16 on, the
/// destination's from byte 20 on, and then the ports.
pub proof fn law_v2_header_of_v4(src: AddrView, dst: AddrView)
    requires
        src.ip.wf() && src.ip is V4,
        dst.ip.wf() && dst.ip is V4,
    ensures
        ({
            let h = v2_header(src, dst);
            &&& h.len() == 28
            &&& begins_v2(h)
            &&& h[12] == 0x21 && h[13] == 0x11
            &&& h[14] == 0 && h[15] == 12
            &&& forall|i: int| 0 <= i < 4 ==> h[16 + i] == #[trigger] (src.ip->V4_0)[i]
            &&& forall|i: int| 0 <= i < 4 ==> h[20 + i] == #[trigger] (dst.ip->V4_0)[i]
            &&& h[24] as int * 256 + h[25] as int == src.port
            &&& h[26] as int * 256 + h[27] as int == dst.port
        }),
{
}

/// A v2 header between addresses of two families, or without any, says that the
/// addresses are not known and ends there.
pub proof fn law_v2_header_without_addresses(src: AddrView, dst: AddrView)
    requires
        src.ip is V4 != dst.ip is V4,
    ensures
        v2_header(src, dst) == v2_unspec_header(),
        v2_unspec_header().len() == 16,
        begins_v2(v2_unspec_header()),
        v2_unspec_header()[12] == 0x21,
        v2_unspec_header()[13] == 0,
        v2_unspec_header()[14] == 0 && v2_unspec_header()[15] == 0,
{
    assert(v2_header(src, dst) =~= v2_unspec_header());
}

/// A v2 header with the paths of Unix sockets: the first 107 bytes of the source's from
/// byte 16 on, of the destination's from byte 124 on, and zeros behind them.
pub proof fn law_v2_header_of_paths(src: Seq<u8>, dst: Seq<u8>, i: int)
    requires
        0 <= i < 108,
    ensures
        ({
            let h = v2_unix_header(Some(src), Some(dst));
            &&& h.len() == 232
            &&& begins_v2(h)
            &&& h[12] == 0x21 && h[13] == 0x31
            &&& h[14] == 0 && h[15] == 216
            &&& i < 107 && i < src.len() ==> h[16 + i] == src[i]
            &&& i == 107 || i >= src.len() ==> h[16 + i] == 0
            &&& i < 107 && i < dst.len() ==> h[124 + i] == dst[i]
            &&& i == 107 || i >= dst.len() ==> h[124 + i] == 0
            &&& v2_unix_header(None, Some(dst))[16 + i] == 0
            &&& v2_unix_header(Some(src), None)[124 + i] == 0
            &&& v2_unix_header(None, Some(dst))[124 + i] == h[124 + i]
            &&& v2_unix_header(Some(src), None)[16 + i] == h[16 + i]
        }),
{
}

/// A v2 header that says IPv6 and is long enough: the segments of the addresses are read
/// from its bytes, the high one first.
pub proof fn law_v2_reads_v6(b: Seq<u8>)
    requires
        begins_v2(b),
        b[12] == 0x21,
        b[13] as int / 16 == 2,
        number_at(b, 14) >= 36,
        b.len() >= 16 + number_at(b, 14),
    ensures
        v2_read(b) is Ok,
        v2_read(b)->Ok_0.consumed == 16 + b[14] as int * 256 + b[15] as int,
        v2_read(b)->Ok_0.addrs is Some,
        ({
            let (src, dst) = v2_read(b)->Ok_0.addrs->0;
            &&& src.ip is V6 && src.ip->V6_0.len() == 8
            &&& dst.ip is V6 && dst.ip->V6_0.len() == 8
            &&& forall|i: int|
                0 <= i < 8 ==> #[trigger] (src.ip->V6_0)[i] == b[16 + 2 * i] as int * 256 + b[17 + 2 * i] as int
            &&& forall|i: int|
                0 <= i < 8 ==> #[trigger] (dst.ip->V6_0)[i] == b[32 + 2 * i] as int * 256 + b[33 + 2 * i] as int
            &&& src.port == b[48] as int * 256 + b[49] as int
            &&& dst.port == b[50] as int * 256 + b[51] as int
            &&& src.flowinfo == 0 && src.scope_id == 0 && dst.flowinfo == 0 && dst.scope_id == 0
        }),
{
    lemma_begins(b);
}

/// The same for a header that says IPv4.
pub proof fn law_v2_reads_v4(b: Seq<u8>)
    requires
        begins_v2(b),
        b[12] == 0x21,
        b[13] as int / 16 == 1,
        number_at(b, 14) >= 12,
        b.len() >= 16 + number_at(b, 14),
    ensures
        v2_read(b) is Ok,
        v2_read(b)->Ok_0.consumed == 16 + b[14] as int * 256 + b[15] as int,
        v2_read(b)->Ok_0.addrs is Some,
        ({
            let (src, dst) = v2_read(b)->Ok_0.addrs->0;
            &&& src.ip is V4 && src.ip->V4_0.len() == 4
            &&& dst.ip is V4 && dst.ip->V4_0.len() == 4
            &&& forall|i: int| 0 <= i < 4 ==> #[trigger] (src.ip->V4_0)[i] == b[16 + i]
            &&& forall|i: int| 0 <= i < 4 ==> #[trigger] (dst.ip->V4_0)[i] == b[20 + i]
            &&& src.port == b[24] as int * 256 + b[25] as int
            &&& dst.port == b[26] as int * 256 + b[27] as int
            &&& src.flowinfo == 0 && src.scope_id == 0 && dst.flowinfo == 0 && dst.scope_id == 0
        }),
{
    lemma_begins(b);
}

/// A v2 header that says LOCAL, or no family of IP, is read as no addresses, and reading
/// takes its block.
pub proof fn law_v2_reads_no_addresses(b: Seq<u8>)
    requires
        begins_v2(b),
        b[12] == 0x20 || b[12] == 0x21 && b[13] as int / 16 != 1 && b[13] as int / 16 != 2,
        b.len() >= 16 + number_at(b, 14),
    ensures
        v2_read(b) is Ok,
        v2_read(b)->Ok_0.addrs is None,
        v2_read(b)->Ok_0.consumed == 16 + b[14] as int * 256 + b[15] as int,
{
    lemma_begins(b);
}

/// What is refused as a v2 header, and why.
pub proof fn law_v2_refusals(b: Seq<u8>)
    ensures
        b.len() < 16 ==> v2_read(b) == Err::<ParsedView, ParseError>(ParseError::UnexpectedEof),
        b.len() >= 16 && !begins_v2(b) ==> v2_read(b) == Err::<ParsedView, ParseError>(
            ParseError::BadSignature,
        ),
        begins_v2(b) && b[12] as int / 16 != 2 ==> v2_read(b) == Err::<ParsedView, ParseError>(
            ParseError::BadVersion,
        ),
        begins_v2(b) && b[12] as int / 16 == 2 && b.len() < 16 + number_at(b, 14) ==> v2_read(b)
            == Err::<ParsedView, ParseError>(ParseError::UnexpectedEof),
        begins_v2(b) && 0x22 <= b[12] <= 0x2f && b.len() >= 16 + number_at(b, 14) ==> v2_read(b)
            == Err::<ParsedView, ParseError>(ParseError::UnknownCommand),
        begins_v2(b) && b[12] == 0x21 && b[13] as int / 16 == 1 && number_at(b, 14) < 12 && b.len()
            >= 16 + number_at(b, 14) ==> v2_read(b) == Err::<ParsedView, ParseError>(
            ParseError::ShortInet,
        ),
        begins_v2(b) && b[12] == 0x21 && b[13] as int / 16 == 2 && number_at(b, 14) < 36 && b.len()
            >= 16 + number_at(b, 14) ==> v2_read(b) == Err::<ParsedView, ParseError>(
            ParseError::ShortInet6,
        ),
{
    if b.len() >= 16 {
        let t = b.take(12);
        if begins_v2(b) {
            lemma_begins(b);
        } else {
            assert(t[0] == b[0] && t[1] == b[1] && t[2] == b[2] && t[3] == b[3]);
            assert(t[4] == b[4] && t[5] == b[5] && t[6] == b[6] && t[7] == b[7]);
            assert(t[8] == b[8] && t[9] == b[9] && t[10] == b[10] && t[11] == b[11]);
        }
    }
}

proof fn lemma_begins(b: Seq<u8>)
    requires
        begins_v2(b),
    ensures
        b.take(12) == v2_signature(),
{
    assert(b.take(12) =~= v2_signature());
}

/// Addresses and headers by what they hold.
pub proof fn law_headers_by_value(
    a: SocketAddr,
    b: SocketAddr,
    p: Parsed,
    e: ParseError,
    o: [u8; 4],
    s: [u16; 8],
)
    ensures
        a@.ip == a.ip@ && a@.port == a.port && a@.flowinfo == a.flowinfo,
        a@.scope_id == a.scope_id,
        IpAddr::V4(o)@ == IpView::V4(o@),
        IpAddr::V6(s)@ == IpView::V6(s@),
        p@.consumed == p.consumed,
        p.addrs is None ==> p@.addrs is None,
        p.addrs == Some((a, b)) ==> p@.addrs == Some((a@, b@)),
        outcome(Ok(p)) == Ok::<_, ParseError>(p@),
        outcome(Err(e)) == Err::<ParsedView, _>(e),
        carried(a@).ip == a.ip@ && carried(a@).port == a.port,
        carried(a@).flowinfo == 0 && carried(a@).scope_id == 0,
{
}

/// A header is written and read in the version that is asked for.
pub proof fn law_headers_by_version(b: Seq<u8>, src: AddrView, dst: AddrView)
    ensures
        read_header(ProxyProtocolVersion::V1, b) == v1_read(b),
        read_header(ProxyProtocolVersion::V2, b) == v2_read(b),
        v1_read(b) matches Ok(v) ==> header_in(ProxyProtocolVersion::V1, b) == Ok::<_, ParseError>(
            v.addrs,
        ),
        v1_read(b) matches Err(e) ==> header_in(ProxyProtocolVersion::V1, b) == Err::<
            Option<(AddrView, AddrView)>,
            _,
        >(e),
        v2_read(b) matches Ok(v) ==> header_in(ProxyProtocolVersion::V2, b) == Ok::<_, ParseError>(
            v.addrs,
        ),
        v2_read(b) matches Err(e) ==> header_in(ProxyProtocolVersion::V2, b) == Err::<
            Option<(AddrView, AddrView)>,
            _,
        >(e),
        proxy_header(ProxyProtocolVersion::V1, src, dst) == v1_header(src, dst),
        proxy_header(ProxyProtocolVersion::V2, src, dst) == v2_header(src, dst),
{
}

} // verus!
