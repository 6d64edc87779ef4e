//! Listener sockets: who is at the other end, which sockets to bind, and whose
//! PROXY header is believed.
use crate::decimal::{decimal, push_decimal};
use crate::ip::{ip_text, push_ip, IpAddr, IpView, SocketAddr};
use crate::proxy_proto::{
    parse_incoming, read_header, AddrView, Parsed, ParseError, ProxyProtocolVersion,
};
use vstd::arithmetic::power2::{lemma_pow2_pos, lemma_pow2_unfold, pow2};
use vstd::prelude::*;

verus! {

/// Who is at the other end of a connection.
#[derive(Clone, Copy, Debug, PartialEq, Eq)]
pub enum PeerAddr {
    Tcp(SocketAddr),
    /// A Unix socket, which has no address.
    Unix,
}

/// Who is at the other end, by value: nothing for a Unix socket.
pub open spec fn peer_view(p: PeerAddr) -> Option<AddrView> {
    match p {
        PeerAddr::Tcp(a) => Some(a@),
        PeerAddr::Unix => None,
    }
}

/// The address that access rules see: the loopback address for a Unix socket.
pub open spec fn peer_ip(p: PeerAddr) -> IpView {
    match p {
        PeerAddr::Tcp(a) => a.ip@,
        PeerAddr::Unix => IpView::V4(seq![127u8, 0, 0, 1]),
    }
}

/// The scope of an address as its text shows it: nothing for none.
pub open spec fn scope_text(scope_id: u32) -> Seq<char> {
    if scope_id == 0 {
        Seq::empty()
    } else {
        seq!['%'] + decimal(scope_id as nat)
    }
}

/// The text of an address with its port. A flow label does not show.
pub open spec fn addr_text(a: AddrView) -> Seq<char> {
    match a.ip {
        IpView::V4(_) => ip_text(a.ip).push(':') + decimal(a.port as nat),
        IpView::V6(_) => seq!['['] + ip_text(a.ip) + scope_text(a.scope_id) + "]:"@ + decimal(
            a.port as nat,
        ),
    }
}

/// The text of a peer.
pub open spec fn peer_text(p: PeerAddr) -> Seq<char> {
    match p {
        PeerAddr::Tcp(a) => addr_text(a@),
        PeerAddr::Unix => "[unix]"@,
    }
}

impl PeerAddr {
    /// The address that access rules see.
    pub fn ip(self) -> (r: IpAddr)
        ensures
            r@ == peer_ip(self),
    {
        match self {
            PeerAddr::Tcp(a) => a.ip,
            PeerAddr::Unix => {
                let r = IpAddr::V4([127, 0, 0, 1]);
                assert(r@->V4_0 =~= seq![127u8, 0, 0, 1]);
                r
            },
        }
    }

    /// The peer in words.
    pub fn text(self) -> (r: String)
        ensures
            r@ == peer_text(self),
    {
        match self {
            PeerAddr::Unix => "[unix]".to_owned(),
            PeerAddr::Tcp(a) => {
                let mut out = String::new();
                match a.ip {
                    IpAddr::V4(_) => {
                        push_ip(&mut out, &a.ip);
                        out.push(':');
                        push_decimal(&mut out, a.port as u64);
                        assert(out@ =~= ip_text(a.ip@).push(':') + decimal(a.port as nat));
                    },
                    IpAddr::V6(_) => {
                        out.push('[');
                        push_ip(&mut out, &a.ip);
                        if a.scope_id != 0 {
                            out.push('%');
                            push_decimal(&mut out, a.scope_id as u64);
                        }
                        assert(out@ =~= seq!['['] + ip_text(a.ip@) + scope_text(a.scope_id));
                        out.append("]:");
                        push_decimal(&mut out, a.port as u64);
                        assert(out@ =~= addr_text(a@));
                    },
                }
                out
            },
        }
    }
}

/// The listener's own address, for a PROXY header towards an upstream.
#[derive(Clone, Copy, Debug, PartialEq, Eq)]
pub struct LocalAddr(pub SocketAddr);

/// The path of the Unix socket that a listener is bound to, as its bytes.
#[derive(Debug)]
pub struct LocalUnixPath(pub Vec<u8>);

/// The kinds of sockets.
#[derive(Clone, Copy, Debug, PartialEq, Eq, Structural)]
pub enum SocketKind {
    TcpStream,
    UdpDgram,
    UnixStream,
    UnixDgram,
    UnixSeqpacket,
}

impl SocketKind {
    /// A kind that carries a stream of bytes.
    pub open spec fn streams(self) -> bool {
        self is TcpStream || self is UnixStream
    }

    /// Whether the kind carries a stream of bytes.
    pub fn is_byte_stream(self) -> (r: bool)
        ensures
            r == self.streams(),
    {
        match self {
            SocketKind::TcpStream => true,
            SocketKind::UnixStream => true,
            _ => false,
        }
    }
}

/// Where a socket is bound.
pub enum AddrLocation {
    Inet(SocketAddr),
    /// The path of a Unix socket, as its bytes.
    Unix(Vec<u8>),
}

/// A socket's kind and place.
pub struct BoundAddr {
    pub kind: SocketKind,
    pub location: AddrLocation,
}

/// How a listener socket comes about.
pub enum BindPlan {
    Tcp(SocketAddr),
    Udp(SocketAddr),
    UnixStream(Vec<u8>),
    UnixDgram(Vec<u8>),
    UnixSeqpacket(Vec<u8>),
}

/// The socket that a kind and a place stand for: IP sockets are bound to an
/// address and Unix sockets to a path, and nothing else can be bound.
pub open spec fn bind_plan(a: BoundAddr) -> Option<BindPlan> {
    match (a.kind, a.location) {
        (SocketKind::TcpStream, AddrLocation::Inet(s)) => Some(BindPlan::Tcp(s)),
        (SocketKind::UdpDgram, AddrLocation::Inet(s)) => Some(BindPlan::Udp(s)),
        (SocketKind::UnixStream, AddrLocation::Unix(p)) => Some(BindPlan::UnixStream(p)),
        (SocketKind::UnixDgram, AddrLocation::Unix(p)) => Some(BindPlan::UnixDgram(p)),
        (SocketKind::UnixSeqpacket, AddrLocation::Unix(p)) => Some(BindPlan::UnixSeqpacket(p)),
        _ => None,
    }
}

/// Says which socket to bind.
pub fn bind_socket(a: BoundAddr) -> (r: Option<BindPlan>)
    ensures
        r == bind_plan(a),
{
    match (a.kind, a.location) {
        (SocketKind::TcpStream, AddrLocation::Inet(s)) => Some(BindPlan::Tcp(s)),
        (SocketKind::UdpDgram, AddrLocation::Inet(s)) => Some(BindPlan::Udp(s)),
        (SocketKind::UnixStream, AddrLocation::Unix(p)) => Some(BindPlan::UnixStream(p)),
        (SocketKind::UnixDgram, AddrLocation::Unix(p)) => Some(BindPlan::UnixDgram(p)),
        (SocketKind::UnixSeqpacket, AddrLocation::Unix(p)) => Some(BindPlan::UnixSeqpacket(p)),
        _ => None,
    }
}

/// Whether a socket of the plan is accepted on, like a stream, or read from
/// directly.
pub open spec fn accepts_streams(p: BindPlan) -> bool {
    p is Tcp || p is UnixStream
}

impl BindPlan {
    /// Whether connections are accepted on the socket.
    pub fn can_accept(&self) -> (r: bool)
        ensures
            r == accepts_streams(*self),
    {
        match self {
            BindPlan::Tcp(_) => true,
            BindPlan::UnixStream(_) => true,
            _ => false,
        }
    }

    /// The address of a TCP socket.
    pub fn tcp_local_addr(&self) -> (r: Option<SocketAddr>)
        ensures
            r == match *self {
                BindPlan::Tcp(a) => Some(a),
                _ => None,
            },
    {
        match self {
            BindPlan::Tcp(a) => Some(*a),
            _ => None,
        }
    }
}

/// A block of addresses that begin with the same bits.
#[derive(Clone, Copy, Debug, PartialEq, Eq)]
pub struct IpNet {
    pub addr: IpAddr,
    pub prefix_len: u8,
}

/// The number of bits of an address.
pub open spec fn ip_bits(ip: IpView) -> nat {
    match ip {
        IpView::V4(_) => 32,
        IpView::V6(_) => 128,
    }
}

/// The number that the first `n` octets stand for.
pub open spec fn octets_value(o: Seq<u8>) -> nat
    decreases o.len(),
{
    if o.len() == 0 {
        0
    } else {
        octets_value(o.drop_last()) * 256 + o.last() as nat
    }
}

/// The number that segments stand for.
pub open spec fn segments_value(s: Seq<u16>) -> nat
    decreases s.len(),
{
    if s.len() == 0 {
        0
    } else {
        segments_value(s.drop_last()) * 65536 + s.last() as nat
    }
}

/// The number that an address stands for.
pub open spec fn ip_value(ip: IpView) -> nat {
    match ip {
        IpView::V4(o) => octets_value(o),
        IpView::V6(s) => segments_value(s),
    }
}

/// A block whose prefix is no longer than an address.
pub open spec fn net_wf(n: IpNet) -> bool {
    n.prefix_len <= ip_bits(n.addr@)
}

/// An address in a block: of the same family, with the same first bits.
pub open spec fn net_has(n: IpNet, ip: IpView) -> bool {
    let bits = ip_bits(ip);
    let size = pow2((bits - n.prefix_len) as nat);
    &&& ip_bits(n.addr@) == bits
    &&& ip_value(n.addr@) / size == ip_value(ip) / size
}

/// An address in one of the blocks.
pub open spec fn some_net_has(nets: Seq<IpNet>, ip: IpView) -> bool {
    exists|i: int| 0 <= i < nets.len() && net_has(#[trigger] nets[i], ip)
}

fn ip_number(ip: &IpAddr) -> (r: u128)
    ensures
        r == ip_value(ip@),
        ip is V4 ==> r < pow2(32),
{
    match ip {
        IpAddr::V4(o) => {
            proof {
                let s = o@;
                assert(s.len() == 4);
                assert(s.drop_last().drop_last().drop_last().drop_last().len() == 0);
                reveal_with_fuel(octets_value, 5);
                vstd::arithmetic::power2::lemma2_to64();
            }
            ((o[0] as u128 * 256 + o[1] as u128) * 256 + o[2] as u128) * 256 + o[3] as u128
        },
        IpAddr::V6(s) => {
            proof {
                vstd::arithmetic::power2::lemma2_to64();
            }
            let mut r: u128 = 0;
            let mut i: usize = 0;
            assert(s@.take(0) =~= Seq::<u16>::empty());
            while i < 8
                invariant
                    i <= 8,
                    s@.len() == 8,
                    r == segments_value(s@.take(i as int)),
                    r < pow2((16 * i) as nat),
                decreases 8 - i,
            {
                proof {
                    assert(s@.take(i + 1).drop_last() =~= s@.take(i as int));
                    lemma_room(i as nat, r as nat, s@[i as int] as nat);
                }
                r = r * 65536 + s[i] as u128;
                i = i + 1;
            }
            assert(s@.take(8) =~= s@);
            r
        },
    }
}

proof fn lemma_top_power()
    ensures
        pow2(128) == u128::MAX + 1,
        2 * pow2(127) == pow2(128),
{
    vstd::arithmetic::power2::lemma2_to64();
    vstd::arithmetic::power2::lemma_pow2_adds(64, 64);
    lemma_pow2_unfold(128);
}

proof fn lemma_room(i: nat, r: nat, x: nat)
    requires
        i < 8,
        r < pow2((16 * i) as nat),
        x < 65536,
    ensures
        r * 65536 + x < pow2((16 * (i + 1)) as nat) <= u128::MAX + 1,
{
    vstd::arithmetic::power2::lemma2_to64();
    vstd::arithmetic::power2::lemma_pow2_adds((16 * i) as nat, 16);
    let p = pow2((16 * i) as nat);
    assert(r * 65536 + x < p * 65536) by (nonlinear_arith)
        requires
            r + 1 <= p,
            x < 65536,
    ;
    assert(pow2((16 * i + 16) as nat) == p * 65536);
    lemma_top_power();
    if i + 1 < 8 {
        vstd::arithmetic::power2::lemma_pow2_strictly_increases((16 * (i + 1)) as nat, 128);
    }
}

fn power(n: u8) -> (r: u128)
    requires
        n < 128,
    ensures
        r == pow2(n as nat),
{
    let mut r: u128 = 1;
    let mut i: u8 = 0;
    proof {
        vstd::arithmetic::power2::lemma2_to64();
    }
    while i < n
        invariant
            i <= n < 128,
            r == pow2(i as nat),
        decreases n - i,
    {
        proof {
            lemma_pow2_unfold((i + 1) as nat);
            lemma_top_power();
            if i + 1 < 127 {
                vstd::arithmetic::power2::lemma_pow2_strictly_increases((i + 1) as nat, 127);
            }
        }
        r = r * 2;
        i = i + 1;
    }
    r
}

impl IpNet {
    /// Whether an address is in the block.
    pub fn contains(&self, ip: &IpAddr) -> (r: bool)
        requires
            net_wf(*self),
        ensures
            r == net_has(*self, ip@),
    {
        let bits: u8 = match (self.addr, *ip) {
            (IpAddr::V4(_), IpAddr::V4(_)) => 32,
            (IpAddr::V6(_), IpAddr::V6(_)) => 128,
            _ => {
                return false;
            },
        };
        let a: u128 = ip_number(&self.addr);
        let b: u128 = ip_number(ip);
        let host: u8 = bits - self.prefix_len;
        if host >= 128 {
            proof {
                lemma_top_power();
                vstd::arithmetic::div_mod::lemma_basic_div(a as int, pow2(128) as int);
                vstd::arithmetic::div_mod::lemma_basic_div(b as int, pow2(128) as int);
            }
            return true;
        }
        let size: u128 = power(host);
        proof {
            lemma_pow2_pos(host as nat);
        }
        a / size == b / size
    }
}

/// Whether a PROXY header of a peer is believed: of every peer, where no
/// blocks are given.
pub open spec fn is_trusted(nets: Seq<IpNet>, ip: IpView) -> bool {
    nets.len() == 0 || some_net_has(nets, ip)
}

/// Whether a PROXY header of a peer is believed.
pub fn trusts(nets: &Vec<IpNet>, peer: PeerAddr) -> (r: bool)
    requires
        forall|i: int| 0 <= i < nets@.len() ==> net_wf(#[trigger] nets@[i]),
    ensures
        r == is_trusted(nets@, peer_ip(peer)),
{
    let n: usize = nets.len();
    if n == 0 {
        return true;
    }
    let ip = peer.ip();
    let mut i: usize = 0;
    while i < n
        invariant
            n == nets@.len(),
            i <= n,
            ip@ == peer_ip(peer),
            forall|j: int| 0 <= j < n ==> net_wf(#[trigger] nets@[j]),
            forall|j: int| 0 <= j < i ==> !net_has(#[trigger] nets@[j], ip@),
        decreases n - i,
    {
        if nets[i].contains(&ip) {
            return true;
        }
        i = i + 1;
    }
    false
}

/// Who a connection comes from once its PROXY header was read: the source that
/// the header names, or the peer where it names none. Nothing where the header
/// makes no sense.
pub open spec fn peer_behind(
    peer: PeerAddr,
    header: Result<Option<(AddrView, AddrView)>, ParseError>,
) -> Option<Option<AddrView>> {
    match header {
        Ok(Some((src, _))) => Some(Some(src)),
        Ok(None) => Some(peer_view(peer)),
        Err(_) => None,
    }
}

/// Says who a connection comes from once its PROXY header was read. Nothing
/// means that the connection is to be dropped.
pub fn peer_after_header(peer: PeerAddr, header: Result<Parsed, ParseError>) -> (r: Option<PeerAddr>)
    ensures
        match r {
            Some(p) => peer_behind(
                peer,
                match crate::proxy_proto::outcome(header) {
                    Ok(v) => Ok(v.addrs),
                    Err(e) => Err(e),
                },
            ) == Some(peer_view(p)),
            None => header is Err,
        },
        r is None <==> header is Err,
        header matches Ok(p) && p.addrs is None ==> r == Some(peer),
{
    match header {
        Ok(p) => match p.addrs {
            Some((src, _)) => Some(PeerAddr::Tcp(src)),
            None => Some(peer),
        },
        Err(_) => None,
    }
}

/// Who a connection comes from whose PROXY header is in hand: nothing, so that
/// it is dropped, where the peer is not believed or the header makes no sense.
pub open spec fn proxied_peer(
    nets: Seq<IpNet>,
    peer: PeerAddr,
    header: Result<Option<(AddrView, AddrView)>, ParseError>,
) -> Option<Option<AddrView>> {
    if is_trusted(nets, peer_ip(peer)) {
        peer_behind(peer, header)
    } else {
        None
    }
}

/// The outcome of reading a PROXY header, without its length.
pub open spec fn header_in(version: ProxyProtocolVersion, b: Seq<u8>) -> Result<
    Option<(AddrView, AddrView)>,
    ParseError,
> {
    match read_header(version, b) {
        Ok(v) => Ok(v.addrs),
        Err(e) => Err(e),
    }
}

/// Reads the PROXY header at the front of a connection and says who it comes
/// from. Nothing means that the connection is to be dropped.
pub fn apply_proxy_proto(
    input: &[u8],
    version: ProxyProtocolVersion,
    peer: PeerAddr,
    trusted: &Vec<IpNet>,
) -> (r: Option<PeerAddr>)
    requires
        forall|i: int| 0 <= i < trusted@.len() ==> net_wf(#[trigger] trusted@[i]),
    ensures
        match r {
            Some(p) => proxied_peer(trusted@, peer, header_in(version, input@)) == Some(
                peer_view(p),
            ),
            None => proxied_peer(trusted@, peer, header_in(version, input@)) is None,
        },
{
    if !trusts(trusted, peer) {
        return None;
    }
    peer_after_header(peer, parse_incoming(input, version))
}

} // verus!
