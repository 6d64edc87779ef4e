//! IP addresses and socket addresses, and their text form.
pub mod laws;

use crate::decimal::{
    all_digits, decimal, digits_value, is_digit, lemma_decimal_digits, parse_unsigned,
    push_decimal,
};
use crate::text::{lemma_more_parts, lemma_one_part, parts, split_on, views};
use vstd::prelude::*;
use vstd::slice::slice_subrange;

verus! {

/// An IP address: the four octets of an IPv4 address or the eight 16-bit
/// segments of an IPv6 address.
#[derive(Clone, Copy, Debug, PartialEq, Eq)]
pub enum IpAddr {
    V4([u8; 4]),
    V6([u16; 8]),
}

/// An IP address by value.
pub enum IpView {
    V4(Seq<u8>),
    V6(Seq<u16>),
}

impl View for IpAddr {
    type V = IpView;

    open spec fn view(&self) -> IpView {
        match self {
            IpAddr::V4(o) => IpView::V4(o@),
            IpAddr::V6(s) => IpView::V6(s@),
        }
    }
}

impl IpView {
    /// The view has the length of its family.
    pub open spec fn wf(self) -> bool {
        match self {
            IpView::V4(o) => o.len() == 4,
            IpView::V6(s) => s.len() == 8,
        }
    }
}

/// An IP address with a port. An IPv6 address may have a flow label and a scope; both
/// are zero where it has none, and for IPv4.
#[derive(Clone, Copy, Debug, PartialEq, Eq)]
pub struct SocketAddr {
    pub ip: IpAddr,
    pub port: u16,
    pub flowinfo: u32,
    pub scope_id: u32,
}

impl SocketAddr {
    /// An address with a port, without flow label and scope.
    pub fn new(ip: IpAddr, port: u16) -> (r: SocketAddr)
        ensures
            r == (SocketAddr { ip, port, flowinfo: 0, scope_id: 0 }),
    {
        SocketAddr { ip, port, flowinfo: 0, scope_id: 0 }
    }
}

/// The digit of a hexadecimal numeral.
pub open spec fn hex_digit(d: int) -> char {
    if d < 10 {
        ('0' as u32 + d) as char
    } else {
        ('a' as u32 + d - 10) as char
    }
}

/// The lower-case hexadecimal numeral of a number, without leading zeros.
pub open spec fn hex(n: nat) -> Seq<char>
    decreases n,
{
    if n < 16 {
        seq![hex_digit(n as int)]
    } else {
        hex(n / 16).push(hex_digit((n % 16) as int))
    }
}

/// What a hexadecimal digit denotes.
pub open spec fn hex_digit_value(c: char) -> Option<int> {
    if '0' <= c <= '9' {
        Some(c as u32 - '0' as u32)
    } else if 'a' <= c <= 'f' {
        Some(c as u32 - 'a' as u32 + 10)
    } else if 'A' <= c <= 'F' {
        Some(c as u32 - 'A' as u32 + 10)
    } else {
        None
    }
}

pub open spec fn all_hex(s: Seq<char>) -> bool {
    forall|i: int| 0 <= i < s.len() ==> hex_digit_value(#[trigger] s[i]) is Some
}

/// The number that a row of hexadecimal digits denotes.
pub open spec fn hex_value(s: Seq<char>) -> int
    decreases s.len(),
{
    if s.len() == 0 {
        0
    } else {
        hex_value(s.drop_last()) * 16 + hex_digit_value(s.last())->0
    }
}

/// The decimal numeral of an octet: up to three digits, no leading zero.
pub open spec fn read_octet(s: Seq<char>) -> Option<u8> {
    if 1 <= s.len() <= 3 && all_digits(s) && (s[0] == '0' ==> s.len() == 1) && digits_value(s)
        <= 255 {
        Some(digits_value(s) as u8)
    } else {
        None
    }
}

/// The IPv4 address that a text denotes: four octets between dots.
pub open spec fn read_v4(s: Seq<char>) -> Option<Seq<u8>> {
    let p = parts(s, '.');
    if p.len() == 4 && forall|i: int| 0 <= i < 4 ==> read_octet(#[trigger] p[i]) is Some {
        Some(Seq::new(4, |i: int| read_octet(p[i])->0))
    } else {
        None
    }
}

/// The segment that a group of an IPv6 text denotes: one to four hexadecimal
/// digits.
pub open spec fn read_group(s: Seq<char>) -> Option<u16> {
    if 1 <= s.len() <= 4 && all_hex(s) {
        Some(hex_value(s) as u16)
    } else {
        None
    }
}

/// The two segments that four octets make.
pub open spec fn v4_segments(o: Seq<u8>) -> Seq<u16> {
    seq![(o[0] * 256 + o[1]) as u16, (o[2] * 256 + o[3]) as u16]
}

/// The segments that a run of groups between colons denotes. The last group
/// may be an IPv4 address where `tail` is set.
pub open spec fn read_groups(s: Seq<char>, tail: bool) -> Option<Seq<u16>> {
    if s.len() == 0 {
        Some(Seq::empty())
    } else {
        let p = parts(s, ':');
        let n = p.len() - 1;
        if forall|i: int| 0 <= i < n ==> read_group(#[trigger] p[i]) is Some {
            let front = Seq::new(n as nat, |i: int| read_group(p[i])->0);
            match read_group(p[n]) {
                Some(g) => Some(front.push(g)),
                None => match read_v4(p[n]) {
                    Some(o) => if tail {
                        Some(front + v4_segments(o))
                    } else {
                        None
                    },
                    None => None,
                },
            }
        } else {
            None
        }
    }
}

/// The first place at or after `i` where two colons stand together, or the
/// length.
pub open spec fn gap_from(s: Seq<char>, i: int) -> int
    decreases s.len() - i,
{
    if i < 0 || i + 1 >= s.len() {
        s.len() as int
    } else if s[i] == ':' && s[i + 1] == ':' {
        i
    } else {
        gap_from(s, i + 1)
    }
}

/// The IPv6 address that a text denotes: eight segments, a run of at least one
/// zero segment written as two colons at most once.
pub open spec fn read_v6(s: Seq<char>) -> Option<Seq<u16>> {
    let j = gap_from(s, 0);
    if j >= s.len() {
        match read_groups(s, true) {
            Some(g) => if g.len() == 8 {
                Some(g)
            } else {
                None
            },
            None => None,
        }
    } else {
        match (read_groups(s.take(j), false), read_groups(s.skip(j + 2), true)) {
            (Some(h), Some(t)) => if h.len() + t.len() <= 7 {
                Some(h + Seq::new((8 - h.len() - t.len()) as nat, |i: int| 0u16) + t)
            } else {
                None
            },
            _ => None,
        }
    }
}

/// The dotted text of an IPv4 address.
pub open spec fn v4_text(o: Seq<u8>) -> Seq<char> {
    decimal(o[0] as nat).push('.') + (decimal(o[1] as nat).push('.') + (decimal(o[2] as nat).push(
        '.',
    ) + decimal(o[3] as nat)))
}

/// Segments in hexadecimal with colons between them.
pub open spec fn joined_hex(s: Seq<u16>) -> Seq<char>
    decreases s.len(),
{
    if s.len() == 0 {
        Seq::empty()
    } else if s.len() == 1 {
        hex(s[0] as nat)
    } else {
        hex(s[0] as nat).push(':') + joined_hex(s.skip(1))
    }
}

/// The number of zero segments from place `i` on.
pub open spec fn zeros_from(s: Seq<u16>, i: int) -> int
    decreases s.len() - i,
{
    if i < 0 || i >= s.len() || s[i] != 0 {
        0
    } else {
        1 + zeros_from(s, i + 1)
    }
}

/// The first place at or after `i` from which the most zero segments follow,
/// and their number.
pub open spec fn longest_gap(s: Seq<u16>, i: int) -> (int, int)
    decreases s.len() - i,
{
    if i < 0 || i >= s.len() {
        (s.len() as int, 0)
    } else {
        let rest = longest_gap(s, i + 1);
        if zeros_from(s, i) >= rest.1 {
            (i, zeros_from(s, i))
        } else {
            rest
        }
    }
}

/// Whether an IPv6 address stands for an IPv4 address.
pub open spec fn is_mapped(s: Seq<u16>) -> bool {
    s[0] == 0 && s[1] == 0 && s[2] == 0 && s[3] == 0 && s[4] == 0 && s[5] == 0xffff
}

/// The octets of the last two segments.
pub open spec fn tail_octets(s: Seq<u16>) -> Seq<u8> {
    seq![(s[6] / 256) as u8, (s[6] % 256) as u8, (s[7] / 256) as u8, (s[7] % 256) as u8]
}

/// The text of an IPv6 address: the longest run of two or more zero segments,
/// the first where several are longest, shrinks to two colons. An address that
/// stands for an IPv4 address ends in its dotted text.
pub open spec fn v6_text(s: Seq<u16>) -> Seq<char> {
    if is_mapped(s) {
        "::ffff:"@ + v4_text(tail_octets(s))
    } else {
        let (at, n) = longest_gap(s, 0);
        if n > 1 {
            joined_hex(s.take(at)) + "::"@ + joined_hex(s.skip(at + n))
        } else {
            joined_hex(s)
        }
    }
}

/// The text of an IP address.
pub open spec fn ip_text(ip: IpView) -> Seq<char> {
    match ip {
        IpView::V4(o) => v4_text(o),
        IpView::V6(s) => v6_text(s),
    }
}

fn push_hex(out: &mut String, n: u16)
    ensures
        final(out)@ == old(out)@ + hex(n as nat),
    decreases n,
{
    if n >= 16 {
        push_hex(out, n / 16);
    }
    let d: u8 = (n % 16) as u8;
    let c: u8 = if d < 10 {
        0x30 + d
    } else {
        0x61 + (d - 10)
    };
    out.push(c as char);
    assert(out@ =~= old(out)@ + hex(n as nat));
}

fn push_v4(out: &mut String, o: &[u8; 4])
    ensures
        final(out)@ == old(out)@ + v4_text(o@),
{
    push_decimal(out, o[0] as u64);
    out.push('.');
    push_decimal(out, o[1] as u64);
    out.push('.');
    push_decimal(out, o[2] as u64);
    out.push('.');
    push_decimal(out, o[3] as u64);
    assert(out@ =~= old(out)@ + v4_text(o@));
}

fn push_joined(out: &mut String, s: &[u16; 8], from: usize, to: usize)
    requires
        from <= to <= 8,
    ensures
        final(out)@ == old(out)@ + joined_hex(s@.subrange(from as int, to as int)),
    decreases to - from,
{
    let ghost t = s@.subrange(from as int, to as int);
    if from < to {
        push_hex(out, s[from]);
        if from + 1 < to {
            out.push(':');
            push_joined(out, s, from + 1, to);
            assert(t.skip(1) =~= s@.subrange(from + 1, to as int));
        }
    }
    assert(out@ =~= old(out)@ + joined_hex(t));
}

fn find_gap(s: &[u16; 8]) -> (r: (usize, usize))
    ensures
        (r.0 as int, r.1 as int) == longest_gap(s@, 0),
{
    let mut i: usize = 8;
    let mut run: usize = 0;
    let mut at: usize = 8;
    let mut n: usize = 0;
    while i > 0
        invariant
            i <= 8,
            run <= 8 - i,
            run == zeros_from(s@, i as int),
            (at as int, n as int) == longest_gap(s@, i as int),
        decreases i,
    {
        i = i - 1;
        if s[i] == 0 {
            run = run + 1;
        } else {
            run = 0;
        }
        if run >= n {
            at = i;
            n = run;
        }
    }
    (at, n)
}

proof fn lemma_zeros_from(s: Seq<u16>, i: int)
    requires
        0 <= i <= s.len(),
    ensures
        0 <= zeros_from(s, i) <= s.len() - i,
        forall|j: int| i <= j < i + zeros_from(s, i) ==> s[j] == 0,
    decreases s.len() - i,
{
    if i < s.len() && s[i] == 0 {
        lemma_zeros_from(s, i + 1);
    }
}

proof fn lemma_longest_gap(s: Seq<u16>, i: int)
    requires
        0 <= i <= s.len(),
    ensures
        ({
            let (at, n) = longest_gap(s, i);
            0 <= at <= s.len() && n == zeros_from(s, at) && 0 <= n && at + n <= s.len()
        }),
    decreases s.len() - i,
{
    lemma_zeros_from(s, i);
    if i < s.len() {
        lemma_longest_gap(s, i + 1);
    }
}

fn push_v6(out: &mut String, s: &[u16; 8])
    ensures
        final(out)@ == old(out)@ + v6_text(s@),
{
    if s[0] == 0 && s[1] == 0 && s[2] == 0 && s[3] == 0 && s[4] == 0 && s[5] == 0xffff {
        out.append("::ffff:");
        let o: [u8; 4] = [
            (s[6] / 256) as u8,
            (s[6] % 256) as u8,
            (s[7] / 256) as u8,
            (s[7] % 256) as u8,
        ];
        assert(o@ =~= tail_octets(s@));
        push_v4(out, &o);
        assert(out@ =~= old(out)@ + v6_text(s@));
        return;
    }
    let (at, n) = find_gap(s);
    proof {
        lemma_longest_gap(s@, 0);
    }
    if n > 1 {
        push_joined(out, s, 0, at);
        out.append("::");
        push_joined(out, s, at + n, 8);
        assert(s@.subrange(0, at as int) =~= s@.take(at as int));
        assert(s@.subrange(at + n, 8) =~= s@.skip(at + n));
        assert(out@ =~= old(out)@ + v6_text(s@));
    } else {
        push_joined(out, s, 0, 8);
        assert(s@.subrange(0, 8) =~= s@);
        assert(out@ =~= old(out)@ + v6_text(s@));
    }
}

/// Appends the text of an IP address.
pub fn push_ip(out: &mut String, ip: &IpAddr)
    ensures
        final(out)@ == old(out)@ + ip_text(ip@),
{
    match ip {
        IpAddr::V4(o) => push_v4(out, o),
        IpAddr::V6(s) => push_v6(out, s),
    }
}

/// The text of an IP address.
pub fn ip_string(ip: &IpAddr) -> (r: String)
    ensures
        r@ == ip_text(ip@),
{
    let mut s = String::new();
    push_ip(&mut s, ip);
    assert(s@ =~= ip_text(ip@));
    s
}

fn parse_octet(s: &[char]) -> (r: Option<u8>)
    ensures
        r == read_octet(s@),
{
    let n: usize = s.len();
    if n < 1 || n > 3 {
        return None;
    }
    if s[0] == '+' || (s[0] == '0' && n != 1) {
        assert(s@[0] == '+' ==> !is_digit(s@[0]));
        return None;
    }
    match parse_unsigned(s, 255) {
        Some(v) => Some(v as u8),
        None => None,
    }
}

fn parse_v4(s: &[char]) -> (r: Option<[u8; 4]>)
    ensures
        match r {
            Some(o) => read_v4(s@) == Some(o@),
            None => read_v4(s@) is None,
        },
{
    let p = split_on(s, '.');
    let ghost pp = parts(s@, '.');
    assert(pp.len() == p@.len());
    if p.len() != 4 {
        return None;
    }
    assert(pp[0] == p@[0]@ && pp[1] == p@[1]@ && pp[2] == p@[2]@ && pp[3] == p@[3]@);
    match (parse_octet(p[0]), parse_octet(p[1]), parse_octet(p[2]), parse_octet(p[3])) {
        (Some(a), Some(b), Some(c), Some(d)) => {
            let o: [u8; 4] = [a, b, c, d];
            assert(read_v4(s@)->0 =~= o@);
            Some(o)
        },
        _ => None,
    }
}

fn hex_digit_of(c: char) -> (r: Option<u16>)
    ensures
        match r {
            Some(v) => hex_digit_value(c) == Some(v as int) && v < 16,
            None => hex_digit_value(c) is None,
        },
{
    if '0' <= c && c <= '9' {
        Some((c as u32 - '0' as u32) as u16)
    } else if 'a' <= c && c <= 'f' {
        Some((c as u32 - 'a' as u32 + 10) as u16)
    } else if 'A' <= c && c <= 'F' {
        Some((c as u32 - 'A' as u32 + 10) as u16)
    } else {
        None
    }
}

fn parse_group(s: &[char]) -> (r: Option<u16>)
    ensures
        r == read_group(s@),
{
    let n: usize = s.len();
    if n < 1 || n > 4 {
        return None;
    }
    let mut v: u32 = 0;
    let mut i: usize = 0;
    while i < n
        invariant
            n == s@.len(),
            n <= 4,
            i <= n,
            all_hex(s@.take(i as int)),
            v == hex_value(s@.take(i as int)),
            i == 0 ==> v == 0,
            i == 1 ==> v < 0x10,
            i == 2 ==> v < 0x100,
            i == 3 ==> v < 0x1000,
            i == 4 ==> v < 0x1_0000,
        decreases n - i,
    {
        match hex_digit_of(s[i]) {
            Some(d) => {
                proof {
                    let t = s@.take(i + 1);
                    assert(t.drop_last() =~= s@.take(i as int));
                    assert forall|j: int| 0 <= j < t.len() implies hex_digit_value(
                        #[trigger] t[j],
                    ) is Some by {
                        if j < i {
                            assert(s@.take(i as int)[j] == t[j]);
                        }
                    }
                }
                v = v * 16 + d as u32;
            },
            None => {
                return None;
            },
        }
        i = i + 1;
    }
    assert(s@.take(n as int) =~= s@);
    Some(v as u16)
}

fn parse_groups(s: &[char], tail: bool) -> (r: Option<Vec<u16>>)
    ensures
        match r {
            Some(g) => read_groups(s@, tail) == Some(g@),
            None => read_groups(s@, tail) is None,
        },
{
    let mut out: Vec<u16> = Vec::new();
    if s.len() == 0 {
        assert(out@ =~= Seq::empty());
        return Some(out);
    }
    let p = split_on(s, ':');
    let ghost pp = parts(s@, ':');
    assert(pp.len() == p@.len());
    let n: usize = p.len() - 1;
    let mut i: usize = 0;
    while i < n
        invariant
            n == p@.len() - 1,
            i <= n,
            views(p@) == pp,
            out@.len() == i,
            forall|j: int| 0 <= j < i ==> read_group(#[trigger] pp[j]) == Some(out@[j]),
            pp == parts(s@, ':'),
            s@.len() > 0,
        decreases n - i,
    {
        assert(pp[i as int] == p@[i as int]@);
        match parse_group(p[i]) {
            Some(g) => {
                out.push(g);
            },
            None => {
                assert(read_group(pp[i as int]) is None);
                return None;
            },
        }
        i = i + 1;
    }
    assert(pp[n as int] == p@[n as int]@);
    assert(out@ =~= Seq::new(n as nat, |i: int| read_group(pp[i])->0));
    match parse_group(p[n]) {
        Some(g) => {
            out.push(g);
            Some(out)
        },
        None => match parse_v4(p[n]) {
            Some(o) => if tail {
                let ghost before = out@;
                out.push(o[0] as u16 * 256 + o[1] as u16);
                out.push(o[2] as u16 * 256 + o[3] as u16);
                assert(out@ =~= before + v4_segments(o@));
                Some(out)
            } else {
                None
            },
            None => None,
        },
    }
}

fn seek_gap(s: &[char]) -> (r: usize)
    ensures
        r == gap_from(s@, 0),
        r < s@.len() ==> r + 1 < s@.len(),
{
    let n: usize = s.len();
    let mut i: usize = 0;
    while i < n && i + 1 < n
        invariant
            n == s@.len(),
            i <= n,
            gap_from(s@, 0) == gap_from(s@, i as int),
        decreases n - i,
    {
        if s[i] == ':' && s[i + 1] == ':' {
            return i;
        }
        i = i + 1;
    }
    n
}

fn eight(g: &Vec<u16>) -> (r: [u16; 8])
    requires
        g@.len() == 8,
    ensures
        r@ == g@,
{
    let r: [u16; 8] = [g[0], g[1], g[2], g[3], g[4], g[5], g[6], g[7]];
    assert(r@ =~= g@);
    r
}

fn parse_v6(s: &[char]) -> (r: Option<[u16; 8]>)
    ensures
        match r {
            Some(g) => read_v6(s@) == Some(g@),
            None => read_v6(s@) is None,
        },
{
    let n: usize = s.len();
    let j: usize = seek_gap(s);
    if j >= n {
        return match parse_groups(s, true) {
            Some(g) => if g.len() == 8 {
                Some(eight(&g))
            } else {
                None
            },
            None => None,
        };
    }
    let front = slice_subrange(s, 0, j);
    let back = slice_subrange(s, j + 2, n);
    assert(front@ =~= s@.take(j as int));
    assert(back@ =~= s@.skip(j + 2));
    match (parse_groups(front, false), parse_groups(back, true)) {
        (Some(h), Some(t)) => {
            let a: usize = h.len();
            let b: usize = t.len();
            if a > 7 || b > 7 - a {
                return None;
            }
            let mut g: Vec<u16> = Vec::new();
            let ghost want = h@ + Seq::new((8 - a - b) as nat, |i: int| 0u16) + t@;
            let mut i: usize = 0;
            while i < 8
                invariant
                    i <= 8,
                    a == h@.len(),
                    b == t@.len(),
                    a + b <= 7,
                    want == h@ + Seq::new((8 - a - b) as nat, |i: int| 0u16) + t@,
                    g@ == want.take(i as int),
                decreases 8 - i,
            {
                let x: u16 = if i < a {
                    h[i]
                } else if i < 8 - b {
                    0
                } else {
                    t[i - (8 - b)]
                };
                g.push(x);
                i = i + 1;
                assert(g@ =~= want.take(i as int));
            }
            assert(g@ =~= want);
            Some(eight(&g))
        },
        _ => None,
    }
}

/// The family of an address text.
#[derive(Clone, Copy, Debug, PartialEq, Eq, Structural)]
pub enum Family {
    V4,
    V6,
}

impl IpView {
    pub open spec fn family(self) -> Family {
        match self {
            IpView::V4(_) => Family::V4,
            IpView::V6(_) => Family::V6,
        }
    }
}

/// The address of a family that a text denotes.
pub open spec fn read_ip(s: Seq<char>, family: Family) -> Option<IpView> {
    match family {
        Family::V4 => match read_v4(s) {
            Some(o) => Some(IpView::V4(o)),
            None => None,
        },
        Family::V6 => match read_v6(s) {
            Some(g) => Some(IpView::V6(g)),
            None => None,
        },
    }
}

/// Reads an address of a family.
pub fn parse_ip(s: &[char], family: Family) -> (r: Option<IpAddr>)
    ensures
        match r {
            Some(ip) => read_ip(s@, family) == Some(ip@) && ip@.wf(),
            None => read_ip(s@, family) is None,
        },
{
    match family {
        Family::V4 => match parse_v4(s) {
            Some(o) => Some(IpAddr::V4(o)),
            None => None,
        },
        Family::V6 => match parse_v6(s) {
            Some(g) => Some(IpAddr::V6(g)),
            None => None,
        },
    }
}

proof fn lemma_octet_text(n: u8)
    ensures
        read_octet(decimal(n as nat)) == Some(n),
        !decimal(n as nat).contains('.'),
        !decimal(n as nat).contains(':'),
        decimal(n as nat).len() <= 3,
{
    let t = decimal(n as nat);
    lemma_decimal_digits(n as nat);
    assert forall|i: int| 0 <= i < t.len() implies t[i] != '.' && t[i] != ':' by {
        assert(is_digit(t[i]));
    }
    if t[0] == '0' {
        assert(n == 0);
    }
}

proof fn lemma_v4_text(o: Seq<u8>)
    requires
        o.len() == 4,
    ensures
        read_v4(v4_text(o)) == Some(o),
        !v4_text(o).contains(':'),
        v4_text(o).contains('.'),
        v4_text(o).len() <= 15,
        forall|i: int|
            0 <= i < v4_text(o).len() ==> is_digit(#[trigger] v4_text(o)[i]) || v4_text(o)[i]
                == '.',
{
    let a = decimal(o[0] as nat);
    let b = decimal(o[1] as nat);
    let c = decimal(o[2] as nat);
    let d = decimal(o[3] as nat);
    lemma_octet_text(o[0]);
    lemma_octet_text(o[1]);
    lemma_octet_text(o[2]);
    lemma_octet_text(o[3]);
    lemma_one_part(d, '.');
    lemma_more_parts(c, '.', d);
    lemma_more_parts(b, '.', c.push('.') + d);
    lemma_more_parts(a, '.', b.push('.') + (c.push('.') + d));
    let p = parts(v4_text(o), '.');
    assert(p =~= seq![a, b, c, d]);
    assert(p[0] == a && p[1] == b && p[2] == c && p[3] == d);
    assert(read_v4(v4_text(o))->0 =~= o);
    let t = v4_text(o);
    lemma_decimal_digits(o[0] as nat);
    lemma_decimal_digits(o[1] as nat);
    lemma_decimal_digits(o[2] as nat);
    lemma_decimal_digits(o[3] as nat);
    assert forall|i: int| 0 <= i < t.len() implies is_digit(#[trigger] t[i]) || t[i] == '.' by {
        let x = a.len() as int;
        let y = x + 1 + b.len();
        let z = y + 1 + c.len();
        if i < x {
            assert(t[i] == a[i]);
        } else if i > x && i < y {
            assert(t[i] == b[i - x - 1]);
        } else if i > y && i < z {
            assert(t[i] == c[i - y - 1]);
        } else if i > z {
            assert(t[i] == d[i - z - 1]);
        }
    }
    assert(t[a.len() as int] == '.');
    assert forall|i: int| 0 <= i < t.len() implies t[i] != ':' by {
        assert(is_digit(t[i]) || t[i] == '.');
    }
}

/// A text that a hexadecimal numeral can be.
spec fn is_hex_text(t: Seq<char>) -> bool {
    all_hex(t) && t.len() > 0
}

proof fn lemma_hex(n: nat)
    ensures
        is_hex_text(hex(n)),
        hex_value(hex(n)) == n,
        n < 16 ==> hex(n).len() == 1,
        16 <= n < 256 ==> hex(n).len() == 2,
        256 <= n < 4096 ==> hex(n).len() == 3,
        4096 <= n < 65536 ==> hex(n).len() == 4,
    decreases n,
{
    let t = hex(n);
    if n >= 16 {
        lemma_hex(n / 16);
        let s = hex(n / 16);
        assert(t.drop_last() =~= s);
        assert forall|i: int| 0 <= i < t.len() implies hex_digit_value(#[trigger] t[i]) is Some by {
            if i < s.len() {
                assert(hex_digit_value(s[i]) is Some);
                assert(t[i] == s[i]);
            }
        }
    } else {
        assert(t.drop_last() =~= Seq::empty());
        assert(hex_value(t.drop_last()) == 0);
    }
}

proof fn lemma_segment_text(n: u16)
    ensures
        read_group(hex(n as nat)) == Some(n),
        is_hex_text(hex(n as nat)),
        !hex(n as nat).contains(':'),
        hex(n as nat).len() <= 4,
{
    lemma_hex(n as nat);
    let t = hex(n as nat);
    assert forall|i: int| 0 <= i < t.len() implies t[i] != ':' by {
        assert(hex_digit_value(t[i]) is Some);
    }
}

/// Joined segments split into the segments' numerals, and no two colons stand
/// together, in front or behind in them.
proof fn lemma_joined(s: Seq<u16>)
    ensures
        read_groups(joined_hex(s), true) == Some(s),
        read_groups(joined_hex(s), false) == Some(s),
        s.len() > 0 ==> parts(joined_hex(s), ':') == Seq::new(
            s.len(),
            |i: int| hex(s[i] as nat),
        ),
        s.len() > 0 ==> joined_hex(s).len() > 0 && joined_hex(s)[0] != ':'
            && joined_hex(s).last() != ':',
        forall|j: int|
            0 <= j && j + 1 < joined_hex(s).len() ==> !(#[trigger] joined_hex(s)[j] == ':'
                && joined_hex(s)[j + 1] == ':'),
        joined_hex(s).len() <= 5 * s.len(),
        s.len() > 0 ==> joined_hex(s).len() < 5 * s.len(),
        forall|j: int|
            0 <= j < joined_hex(s).len() ==> hex_digit_value(#[trigger] joined_hex(s)[j]) is Some
                || joined_hex(s)[j] == ':',
    decreases s.len(),
{
    let t = joined_hex(s);
    if s.len() == 0 {
    } else {
        let h = hex(s[0] as nat);
        lemma_segment_text(s[0]);
        assert forall|j: int| 0 <= j < h.len() implies hex_digit_value(#[trigger] h[j]) is Some
            && h[j] != ':' by {
            assert(!(h[j] == ':'));
        }
        if s.len() == 1 {
            lemma_one_part(h, ':');
            assert(parts(t, ':') =~= Seq::new(s.len(), |i: int| hex(s[i] as nat)));
        } else {
            let rest = s.skip(1);
            let u = joined_hex(rest);
            lemma_joined(rest);
            lemma_more_parts(h, ':', u);
            assert(parts(t, ':') =~= Seq::new(s.len(), |i: int| hex(s[i] as nat)));
            assert(t.last() == u.last());
            assert(t[0] == h[0]);
            assert forall|j: int| 0 <= j && j + 1 < t.len() implies !(#[trigger] t[j] == ':' && t[j
                + 1] == ':') by {
                if j < h.len() {
                    assert(t[j] == h[j]);
                } else if j == h.len() {
                    assert(t[j + 1] == u[0]);
                } else {
                    assert(t[j] == u[j - h.len() - 1]);
                    assert(t[j + 1] == u[j - h.len()]);
                }
            }
            assert forall|j: int| 0 <= j < t.len() implies hex_digit_value(#[trigger] t[j]) is Some
                || t[j] == ':' by {
                if j < h.len() {
                    assert(t[j] == h[j]);
                } else if j > h.len() {
                    assert(t[j] == u[j - h.len() - 1]);
                }
            }
        }
        let p = parts(t, ':');
        let n = p.len() - 1;
        assert forall|i: int| 0 <= i < p.len() implies read_group(#[trigger] p[i]) == Some(s[i]) by {
            lemma_segment_text(s[i]);
        }
        assert(Seq::new(n as nat, |i: int| read_group(p[i])->0).push(s[n]) =~= s);
    }
}

proof fn lemma_gap_is(s: Seq<char>, i: int, r: int)
    requires
        0 <= i <= r,
        forall|j: int| i <= j < r && j + 1 < s.len() ==> !(#[trigger] s[j] == ':' && s[j + 1] == ':'),
        (r + 1 < s.len() && s[r] == ':' && s[r + 1] == ':') || r == s.len(),
    ensures
        gap_from(s, i) == r,
    decreases r - i,
{
    if i < r && i + 1 < s.len() {
        lemma_gap_is(s, i + 1, r);
    }
}

/// The characters of an IPv6 text.
spec fn v6_chars(t: Seq<char>) -> bool {
    forall|i: int|
        0 <= i < t.len() ==> hex_digit_value(#[trigger] t[i]) is Some || t[i] == ':' || t[i] == '.'
}

proof fn lemma_mapped_tail(o: Seq<u8>)
    requires
        o.len() == 4,
    ensures
        read_groups("ffff:"@ + v4_text(o), true) == Some(seq![0xffffu16] + v4_segments(o)),
{
    reveal_strlit("ffff:");
    let d = v4_text(o);
    lemma_v4_text(o);
    let u = "ffff:"@ + d;
    let f = hex(0xffff);
    lemma_segment_text(0xffff);
    assert(f =~= seq!['f', 'f', 'f', 'f']) by {
        reveal_with_fuel(hex, 4);
    }
    assert(u =~= f.push(':') + d);
    lemma_one_part(d, ':');
    lemma_more_parts(f, ':', d);
    let p = parts(u, ':');
    assert(p =~= seq![f, d]);
    assert(p[0] == f && p[1] == d);
    assert(read_group(d) is None) by {
        let i = choose|i: int| 0 <= i < d.len() && d[i] == '.';
        assert(hex_digit_value(d[i]) is None);
    }
    assert(Seq::new(1, |i: int| read_group(p[i])->0) =~= seq![0xffffu16]);
}

proof fn lemma_mapped_text(s: Seq<u16>)
    requires
        s.len() == 8,
        is_mapped(s),
    ensures
        read_v6("::ffff:"@ + v4_text(tail_octets(s))) == Some(s),
        v6_chars("::ffff:"@ + v4_text(tail_octets(s))),
        v4_text(tail_octets(s)).len() <= 15,
{
    reveal_strlit("::ffff:");
    reveal_strlit("ffff:");
    let o = tail_octets(s);
    let d = v4_text(o);
    let t = "::ffff:"@ + d;
    lemma_v4_text(o);
    lemma_mapped_tail(o);
    assert(t[0] == ':' && t[1] == ':');
    assert(gap_from(t, 0) == 0);
    assert(t.take(0) =~= Seq::empty());
    assert(t.skip(2) =~= "ffff:"@ + d);
    assert(v4_segments(o) =~= seq![s[6], s[7]]);
    assert(read_v6(t)->0 =~= s);
    assert forall|i: int| 0 <= i < t.len() implies hex_digit_value(#[trigger] t[i]) is Some || t[i]
        == ':' || t[i] == '.' by {
        if i >= 7 {
            assert(t[i] == d[i - 7]);
        }
    }
}

#[verifier::spinoff_prover]
#[verifier::rlimit(60)]
proof fn lemma_gap_text(s: Seq<u16>, at: int, n: int)
    requires
        s.len() == 8,
        0 <= at,
        n > 1,
        at + n <= 8,
        forall|j: int| at <= j < at + n ==> s[j] == 0,
    ensures
        read_v6(joined_hex(s.take(at)) + "::"@ + joined_hex(s.skip(at + n))) == Some(s),
        v6_chars(joined_hex(s.take(at)) + "::"@ + joined_hex(s.skip(at + n))),
        (joined_hex(s.take(at)) + "::"@ + joined_hex(s.skip(at + n))).len() <= 39,
{
    reveal_strlit("::");
    let a = s.take(at);
    let b = s.skip(at + n);
    let ja = joined_hex(a);
    let jb = joined_hex(b);
    let t = ja + "::"@ + jb;
    lemma_joined(a);
    lemma_joined(b);
    let j = ja.len() as int;
    assert forall|i: int| 0 <= i < j && i + 1 < t.len() implies !(#[trigger] t[i] == ':' && t[i + 1]
        == ':') by {
        assert(t[i] == ja[i]);
        if i + 1 < j {
            assert(t[i + 1] == ja[i + 1]);
        }
    }
    assert(t[j] == ':' && t[j + 1] == ':');
    lemma_gap_is(t, 0, j);
    assert(t.take(j) =~= ja);
    assert(t.skip(j + 2) =~= jb);
    assert(read_v6(t)->0 =~= s);
    assert forall|i: int| 0 <= i < t.len() implies hex_digit_value(#[trigger] t[i]) is Some || t[i]
        == ':' || t[i] == '.' by {
        if i < j {
            assert(t[i] == ja[i]);
        } else if i >= j + 2 {
            assert(t[i] == jb[i - j - 2]);
        }
    }
}

proof fn lemma_v6_text(s: Seq<u16>)
    requires
        s.len() == 8,
    ensures
        read_v6(v6_text(s)) == Some(s),
        v6_text(s).len() <= 39,
        v6_chars(v6_text(s)),
{
    if is_mapped(s) {
        reveal_strlit("::ffff:");
        lemma_mapped_text(s);
    } else {
        let (at, n) = longest_gap(s, 0);
        lemma_longest_gap(s, 0);
        lemma_zeros_from(s, at);
        if n > 1 {
            lemma_gap_text(s, at, n);
        } else {
            let t = joined_hex(s);
            lemma_joined(s);
            lemma_gap_is(t, 0, t.len() as int);
        }
    }
}

/// Reading the text of an address gives back the address.
pub proof fn law_read_of_ip_text(ip: IpView)
    requires
        ip.wf(),
    ensures
        read_ip(ip_text(ip), ip.family()) == Some(ip),
{
    match ip {
        IpView::V4(o) => lemma_v4_text(o),
        IpView::V6(s) => lemma_v6_text(s),
    }
}

/// The text of an address is short, ASCII, and holds no blank and no control
/// character.
pub proof fn lemma_ip_text_chars(ip: IpView)
    requires
        ip.wf(),
    ensures
        0 < ip_text(ip).len() <= 39,
        forall|i: int| 0 <= i < ip_text(ip).len() ==> ' ' < #[trigger] ip_text(ip)[i] < '\x7f',
{
    let t = ip_text(ip);
    match ip {
        IpView::V4(o) => {
            lemma_v4_text(o);
            assert forall|i: int| 0 <= i < t.len() implies ' ' < #[trigger] t[i] < '\x7f' by {
                assert(is_digit(t[i]) || t[i] == '.');
            }
        },
        IpView::V6(s) => {
            lemma_v6_text(s);
            assert(read_v6(t) == Some(s));
            if t.len() == 0 {
                assert(gap_from(t, 0) == 0);
                assert(read_groups(t, true)->0 =~= Seq::<u16>::empty());
            }
            assert forall|i: int| 0 <= i < t.len() implies ' ' < #[trigger] t[i] < '\x7f' by {
                assert(hex_digit_value(t[i]) is Some || t[i] == ':' || t[i] == '.');
            }
        },
    }
}

} // verus!
