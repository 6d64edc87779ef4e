//! The text of addresses, in terms of their octets and segments.
use crate::decimal::decimal;
use crate::ip::{
    all_hex, hex, hex_digit_value, hex_value, ip_text, joined_hex, lemma_joined, lemma_octet_text,
    longest_gap, parts, read_group, read_ip, read_octet, read_v4, zeros_from, Family, IpView,
};
use crate::text::{lemma_more_parts, lemma_one_part, lower};
use vstd::prelude::*;

verus! {

/// The text of an IPv4 address is its four octets as decimal numerals with dots between them,
/// in their order.
pub proof fn law_v4_text_by_octets(o: Seq<u8>)
    requires
        o.len() == 4,
    ensures
        ip_text(IpView::V4(o)) == decimal(o[0] as nat) + "."@ + decimal(o[1] as nat) + "."@ + decimal(
            o[2] as nat,
        ) + "."@ + decimal(o[3] as nat),
{
    reveal_strlit(".");
    assert(ip_text(IpView::V4(o)) =~= decimal(o[0] as nat) + "."@ + decimal(o[1] as nat) + "."@
        + decimal(o[2] as nat) + "."@ + decimal(o[3] as nat));
}

/// A text is an IPv4 address if and only if it is four octets with dots between them.
pub proof fn law_v4_read_by_octets(
    a: Seq<char>,
    b: Seq<char>,
    c: Seq<char>,
    d: Seq<char>,
)
    requires
        !a.contains('.') && !b.contains('.') && !c.contains('.') && !d.contains('.'),
    ensures
        ({
            let t = a.push('.') + (b.push('.') + (c.push('.') + d));
            let all = read_octet(a) is Some && read_octet(b) is Some && read_octet(c) is Some
                && read_octet(d) is Some;
            &&& all ==> read_ip(t, Family::V4) == Some(
                IpView::V4(
                    seq![read_octet(a)->0, read_octet(b)->0, read_octet(c)->0, read_octet(d)->0],
                ),
            )
            &&& !all ==> read_ip(t, Family::V4) is None
        }),
{
    let t = a.push('.') + (b.push('.') + (c.push('.') + d));
    lemma_one_part(d, '.');
    lemma_more_parts(c, '.', d);
    lemma_more_parts(b, '.', c.push('.') + d);
    lemma_more_parts(a, '.', b.push('.') + (c.push('.') + d));
    let p = parts(t, '.');
    assert(p =~= seq![a, b, c, d]);
    assert(p[0] == a && p[1] == b && p[2] == c && p[3] == d);
    if read_octet(a) is Some && read_octet(b) is Some && read_octet(c) is Some && read_octet(d)
        is Some {
        assert forall|i: int| 0 <= i < 4 implies read_octet(#[trigger] p[i]) is Some by {
            assert(i == 0 || i == 1 || i == 2 || i == 3);
        }
        assert(read_v4(t)->0 =~= seq![
            read_octet(a)->0,
            read_octet(b)->0,
            read_octet(c)->0,
            read_octet(d)->0,
        ]);
    }
}

/// An octet reads as the number of its numeral, which has no leading zero and is at most 255.
pub proof fn law_octet_by_its_numeral(s: Seq<char>, n: u8, m: nat)
    ensures
        read_octet(decimal(n as nat)) == Some(n),
        read_octet(s) is Some ==> 1 <= s.len() <= 3 && (s[0] == '0' ==> s.len() == 1)
            && crate::decimal::read_unsigned(s, 255) == Some(read_octet(s)->0 as nat),
        s.len() > 1 && s[0] == '0' ==> read_octet(s) is None,
        m > 255 ==> read_octet(decimal(m)) is None,
{
    lemma_octet_text(n);
    crate::decimal::lemma_decimal_digits(m);
    if read_octet(s) is Some {
        assert(crate::decimal::is_digit(s[0]));
    }
}

/// A hexadecimal numeral has one digit for every power of sixteen, the last one for the ones,
/// in lower case.
pub proof fn law_hex_by_digits(n: nat)
    ensures
        n < 10 ==> hex(n).len() == 1 && hex(n)[0] as int == 0x30 + n,
        10 <= n < 16 ==> hex(n).len() == 1 && hex(n)[0] as int == 0x61 + n - 10,
        n >= 16 ==> hex(n) == hex(n / 16) + hex(n % 16),
{
    if n >= 16 {
        assert(hex(n) =~= hex(n / 16) + hex(n % 16));
    }
}

/// Segments stand with colons between them, in their order.
pub proof fn law_colons_between_segments(s: Seq<u16>, n: u16)
    ensures
        joined_hex(Seq::empty()) == Seq::<char>::empty(),
        joined_hex(seq![n]) == hex(n as nat),
        s.len() > 0 ==> joined_hex(seq![n] + s) == hex(n as nat) + ":"@ + joined_hex(s),
{
    reveal_strlit(":");
    let t = seq![n] + s;
    assert(t.skip(1) =~= s);
    if s.len() > 0 {
        assert(joined_hex(t) =~= hex(n as nat) + ":"@ + joined_hex(s));
    }
}

/// A run of zero segments from one place to another, which cannot be longer.
pub open spec fn is_run(s: Seq<u16>, at: int, n: int) -> bool {
    &&& 0 <= at && 0 < n && at + n <= s.len()
    &&& forall|i: int| at <= i < at + n ==> #[trigger] s[i] == 0
    &&& at > 0 ==> s[at - 1] != 0
    &&& at + n < s.len() ==> s[at + n] != 0
}

proof fn lemma_zeros_are(s: Seq<u16>, i: int, n: int)
    requires
        0 <= i,
        0 <= n,
        i + n <= s.len(),
        forall|j: int| i <= j < i + n ==> #[trigger] s[j] == 0,
        i + n < s.len() ==> s[i + n] != 0,
    ensures
        zeros_from(s, i) == n,
    decreases n,
{
    if n > 0 {
        assert(s[i] == 0);
        lemma_zeros_are(s, i + 1, n - 1);
    }
}

proof fn lemma_run_from(s: Seq<u16>, i: int)
    requires
        0 <= i < s.len(),
        s[i] == 0,
        i == 0 || s[i - 1] != 0,
    ensures
        is_run(s, i, zeros_from(s, i)),
{
    lemma_zeros_stop(s, i);
}

proof fn lemma_zeros_stop(s: Seq<u16>, i: int)
    requires
        0 <= i <= s.len(),
    ensures
        0 <= zeros_from(s, i),
        i + zeros_from(s, i) <= s.len(),
        forall|j: int| i <= j < i + zeros_from(s, i) ==> #[trigger] s[j] == 0,
        i + zeros_from(s, i) < s.len() ==> s[i + zeros_from(s, i)] != 0,
    decreases s.len() - i,
{
    if i < s.len() && s[i] == 0 {
        lemma_zeros_stop(s, i + 1);
    }
}

/// From place `i` on the longest gap is at least as long as what follows any later place, and
/// longer than what follows any place before it.
proof fn lemma_gap_is_longest(s: Seq<u16>, i: int)
    requires
        0 <= i <= s.len(),
    ensures
        ({
            let (at, n) = longest_gap(s, i);
            &&& i <= at <= s.len()
            &&& n == zeros_from(s, at)
            &&& forall|j: int| i <= j < s.len() ==> #[trigger] zeros_from(s, j) <= n
            &&& forall|j: int| i <= j < at ==> #[trigger] zeros_from(s, j) < n
        }),
    decreases s.len() - i,
{
    if i < s.len() {
        lemma_gap_is_longest(s, i + 1);
    }
}

/// An IPv6 address in which the longest run of zeros has two segments or more is written with
/// two colons in place of that run. Of several such runs it is the first.
pub proof fn law_v6_text_with_a_gap(s: Seq<u16>, at: int, n: int)
    requires
        s.len() == 8,
        is_run(s, at, n),
        n >= 2,
        forall|a: int, k: int| #[trigger] is_run(s, a, k) ==> k < n || k == n && at <= a,
        !(s[0] == 0 && s[1] == 0 && s[2] == 0 && s[3] == 0 && s[4] == 0 && s[5] == 0xffff),
    ensures
        ip_text(IpView::V6(s)) == joined_hex(s.take(at)) + "::"@ + joined_hex(s.skip(at + n)),
{
    let (a, k) = longest_gap(s, 0);
    lemma_gap_is_longest(s, 0);
    lemma_zeros_are(s, at, n);
    assert(zeros_from(s, at) <= k);
    lemma_zeros_stop(s, a);
    assert(a < 8);
    if a > 0 && s[a - 1] == 0 {
        assert(zeros_from(s, a - 1) == 1 + zeros_from(s, a));
        assert(zeros_from(s, a - 1) < k);
    }
    lemma_run_from(s, a);
    assert(is_run(s, a, k));
    if at < a {
        assert(zeros_from(s, at) < k);
    }
}

/// An IPv6 address without two zero segments in a row is written out in full.
pub proof fn law_v6_text_in_full(s: Seq<u16>)
    requires
        s.len() == 8,
        forall|i: int| 0 <= i < 7 ==> !(#[trigger] s[i] == 0 && s[i + 1] == 0),
    ensures
        ip_text(IpView::V6(s)) == joined_hex(s),
{
    let (a, k) = longest_gap(s, 0);
    lemma_gap_is_longest(s, 0);
    lemma_zeros_stop(s, a);
    if k > 1 {
        assert(s[a] == 0);
        assert(s[a + 1] == 0);
    }
    assert(!(s[0] == 0 && s[1] == 0));
}

/// An IPv6 address that stands for an IPv4 address ends in that address, the high byte of each
/// segment first.
pub proof fn law_v6_text_of_v4(s: Seq<u16>, o: Seq<u8>)
    requires
        s.len() == 8,
        s[0] == 0 && s[1] == 0 && s[2] == 0 && s[3] == 0 && s[4] == 0 && s[5] == 0xffff,
        o.len() == 4,
        s[6] as int == o[0] as int * 256 + o[1] as int,
        s[7] as int == o[2] as int * 256 + o[3] as int,
    ensures
        ip_text(IpView::V6(s)) == "::ffff:"@ + ip_text(IpView::V4(o)),
{
    assert(crate::ip::tail_octets(s) =~= o);
}

/// Letters of either case mean the same digit.
pub proof fn law_hex_digits(c: char)
    ensures
        '0' <= c <= '9' ==> hex_digit_value(c) == Some(c as int - 0x30),
        'a' <= c <= 'f' ==> hex_digit_value(c) == Some(c as int - 0x61 + 10),
        'A' <= c <= 'F' ==> hex_digit_value(c) == Some(c as int - 0x41 + 10),
        hex_digit_value(c) is Some ==> '0' <= c <= '9' || 'a' <= c <= 'f' || 'A' <= c <= 'F',
{
}

/// A group of an IPv6 address is one to four hexadecimal digits, each of which counts sixteen
/// times what the one behind it counts.
pub proof fn law_group_by_digits(s: Seq<char>, c: char)
    ensures
        read_group(s) is Some <==> 1 <= s.len() <= 4 && forall|i: int|
            0 <= i < s.len() ==> hex_digit_value(#[trigger] s[i]) is Some,
        hex_digit_value(c) is Some ==> read_group(seq![c]) == Some(hex_digit_value(c)->0 as u16),
        read_group(s) is Some && s.len() < 4 && hex_digit_value(c) is Some ==> read_group(s.push(c))
            is Some && read_group(s.push(c))->0 as int == read_group(s)->0 * 16 + hex_digit_value(
            c,
        )->0,
{
    let one = seq![c];
    assert(one.drop_last() =~= Seq::empty());
    assert(hex_value(one.drop_last()) == 0);
    if read_group(s) is Some && s.len() < 4 && hex_digit_value(c) is Some {
        let t = s.push(c);
        assert(t.drop_last() =~= s);
        assert forall|i: int| 0 <= i < t.len() implies hex_digit_value(#[trigger] t[i]) is Some by {
            if i < s.len() {
                assert(hex_digit_value(s[i]) is Some);
            }
        }
        lemma_hex_bound(s);
    }
}

proof fn lemma_hex_bound(s: Seq<char>)
    requires
        all_hex(s),
    ensures
        0 <= hex_value(s),
        s.len() == 0 ==> hex_value(s) == 0,
        s.len() == 1 ==> hex_value(s) < 16,
        s.len() == 2 ==> hex_value(s) < 256,
        s.len() == 3 ==> hex_value(s) < 4096,
    decreases s.len(),
{
    if s.len() > 0 {
        assert forall|i: int| 0 <= i < s.len() - 1 implies hex_digit_value(
            #[trigger] s.drop_last()[i],
        ) is Some by {
            assert(hex_digit_value(s[i]) is Some);
        }
        lemma_hex_bound(s.drop_last());
        assert(hex_digit_value(s[s.len() - 1]) is Some);
    }
}

/// An IPv6 address with two colons for a run of zeros reads as what stands before them, zeros,
/// and what stands behind them, eight segments in all.
pub proof fn law_v6_read_with_a_gap(a: Seq<u16>, b: Seq<u16>)
    requires
        a.len() + b.len() <= 6,
    ensures
        read_ip(joined_hex(a) + "::"@ + joined_hex(b), Family::V6) == Some(
            IpView::V6(a + Seq::new((8 - a.len() - b.len()) as nat, |i: int| 0u16) + b),
        ),
{
    let n = 8 - a.len() - b.len();
    let s = a + Seq::new(n as nat, |i: int| 0u16) + b;
    assert(s.take(a.len() as int) =~= a);
    assert(s.skip(a.len() + n) =~= b);
    crate::ip::lemma_gap_text(s, a.len() as int, n);
}

/// An IPv6 address that is written out in full reads as its segments.
pub proof fn law_v6_read_in_full(s: Seq<u16>)
    ensures
        s.len() == 8 ==> read_ip(joined_hex(s), Family::V6) == Some(IpView::V6(s)),
        s.len() != 8 ==> read_ip(joined_hex(s), Family::V6) is None,
{
    lemma_joined(s);
    let t = joined_hex(s);
    crate::ip::lemma_gap_is(t, 0, t.len() as int);
}

} // verus!
