//! Percent coding of return addresses and query values.
use crate::text::{chars_of, find_named, lossy_string, named_value, parts, split_on, utf8_lossy};
use vstd::prelude::*;
use vstd::utf8::*;

verus! {

/// A byte that stands for itself: a letter, a digit, or one of `-_.~/`.
pub open spec fn is_safe(b: u8) -> bool {
    ||| 0x41 <= b <= 0x5a
    ||| 0x61 <= b <= 0x7a
    ||| 0x30 <= b <= 0x39
    ||| b == 0x2d
    ||| b == 0x5f
    ||| b == 0x2e
    ||| b == 0x7e
    ||| b == 0x2f
}

/// An upper-case hexadecimal digit.
pub open spec fn hex_digit(d: int) -> char {
    if d < 10 {
        (0x30 + d) as char
    } else {
        (0x37 + d) as char
    }
}

/// A byte as it is written: by itself, or by its two digits behind a percent
/// sign.
pub open spec fn written(b: u8) -> Seq<char> {
    if is_safe(b) {
        seq![b as char]
    } else {
        seq!['%', hex_digit(b as int / 16), hex_digit(b as int % 16)]
    }
}

/// The bytes from `i` on as they are written.
pub open spec fn encoded_from(b: Seq<u8>, i: int) -> Seq<char>
    decreases b.len() - i,
{
    if i < 0 || i >= b.len() {
        Seq::empty()
    } else {
        written(b[i]) + encoded_from(b, i + 1)
    }
}

/// A text in percent coding.
pub open spec fn percent_encoded(s: Seq<char>) -> Seq<char> {
    encoded_from(encode_utf8(s), 0)
}

/// The value of a hexadecimal digit.
pub open spec fn hex_value(b: u8) -> Option<int> {
    if 0x30 <= b <= 0x39 {
        Some(b - 0x30)
    } else if 0x41 <= b <= 0x46 {
        Some(b - 0x37)
    } else if 0x61 <= b <= 0x66 {
        Some(b - 0x57)
    } else {
        None
    }
}

/// A percent sign with two hexadecimal digits behind it.
pub open spec fn is_escape(b: Seq<u8>, i: int) -> bool {
    &&& b[i] == 0x25
    &&& i + 2 < b.len()
    &&& hex_value(b[i + 1]) is Some
    &&& hex_value(b[i + 2]) is Some
}

/// The bytes from `i` on with each escape in place of the byte that it stands
/// for.
pub open spec fn decoded_from(b: Seq<u8>, i: int) -> Seq<u8>
    decreases b.len() - i,
{
    if i < 0 || i >= b.len() {
        Seq::empty()
    } else if is_escape(b, i) {
        seq![(hex_value(b[i + 1])->0 * 16 + hex_value(b[i + 2])->0) as u8] + decoded_from(b, i + 3)
    } else {
        seq![b[i]] + decoded_from(b, i + 1)
    }
}

/// The text that a text in percent coding stands for. What is no escape stands
/// for itself.
pub open spec fn percent_decoded(s: Seq<char>) -> Seq<char> {
    utf8_lossy(decoded_from(encode_utf8(s), 0))
}

/// Whether a byte stands for itself.
fn safe(b: u8) -> (r: bool)
    ensures
        r == is_safe(b),
{
    (0x41 <= b && b <= 0x5a) || (0x61 <= b && b <= 0x7a) || (0x30 <= b && b <= 0x39) || b == 0x2d
        || b == 0x5f || b == 0x2e || b == 0x7e || b == 0x2f
}

fn digit_char(d: u8) -> (r: char)
    requires
        d < 16,
    ensures
        r == hex_digit(d as int),
{
    if d < 10 {
        (0x30 + d) as char
    } else {
        (0x37 + d) as char
    }
}

fn digit_value(b: u8) -> (r: Option<u8>)
    ensures
        match r {
            Some(d) => d < 16 && hex_value(b) == Some(d as int),
            None => hex_value(b) is None,
        },
{
    if 0x30 <= b && b <= 0x39 {
        Some(b - 0x30)
    } else if 0x41 <= b && b <= 0x46 {
        Some(b - 0x37)
    } else if 0x61 <= b && b <= 0x66 {
        Some(b - 0x57)
    } else {
        None
    }
}

/// Writes a text in percent coding. A slash stands for itself.
pub fn percent_encode_return(s: &str) -> (r: String)
    ensures
        r@ == percent_encoded(s@),
{
    let b = s.as_bytes();
    let n: usize = b.len();
    let mut out = String::new();
    let mut i: usize = 0;
    assert(out@ + encoded_from(b@, 0) =~= percent_encoded(s@));
    while i < n
        invariant
            n == b@.len(),
            i <= n,
            out@ + encoded_from(b@, i as int) == percent_encoded(s@),
        decreases n - i,
    {
        let ghost before = out@;
        let c: u8 = b[i];
        if safe(c) {
            out.push(c as char);
        } else {
            out.push('%');
            out.push(digit_char(c / 16));
            out.push(digit_char(c % 16));
        }
        assert(out@ =~= before + written(c));
        assert(out@ + encoded_from(b@, i + 1) =~= before + (written(c) + encoded_from(b@, i + 1)));
        i = i + 1;
    }
    assert(out@ + encoded_from(b@, n as int) =~= out@);
    out
}

/// Reads a text in percent coding. What is no escape stands for itself.
pub fn percent_decode(s: &str) -> (r: String)
    ensures
        r@ == percent_decoded(s@),
        valid_utf8(decoded_from(encode_utf8(s@), 0)) ==> r@ == decode_utf8(
            decoded_from(encode_utf8(s@), 0),
        ),
{
    let b = s.as_bytes();
    let n: usize = b.len();
    let mut out: Vec<u8> = Vec::new();
    let mut i: usize = 0;
    assert(out@ + decoded_from(b@, 0) =~= decoded_from(b@, 0));
    while i < n
        invariant
            n == b@.len(),
            i <= n,
            b@ == encode_utf8(s@),
            out@ + decoded_from(b@, i as int) == decoded_from(b@, 0),
        decreases n - i,
    {
        let ghost before = out@;
        let mut byte: u8 = b[i];
        let mut step: usize = 1;
        if byte == 0x25 && n - i > 2 {
            match (digit_value(b[i + 1]), digit_value(b[i + 2])) {
                (Some(h), Some(l)) => {
                    byte = h * 16 + l;
                    step = 3;
                },
                _ => {},
            }
        }
        out.push(byte);
        assert(out@ + decoded_from(b@, i + step) =~= before + (seq![byte] + decoded_from(
            b@,
            i + step,
        )));
        i = i + step;
    }
    assert(out@ + decoded_from(b@, n as int) =~= out@);
    lossy_string(&out)
}

/// A parameter of a query, decoded: the value of the first part of the form
/// `key=value`.
pub open spec fn query_value(query: Seq<char>, key: Seq<char>) -> Option<Seq<char>> {
    match named_value(parts(query, '&'), key, 0) {
        Some(v) => Some(percent_decoded(v)),
        None => None,
    }
}

/// Reads a parameter of a query.
pub fn query_param(query: &str, key: &str) -> (r: Option<String>)
    ensures
        match r {
            Some(v) => query_value(query@, key@) == Some(v@),
            None => query_value(query@, key@) is None,
        },
        match named_value(parts(query@, '&'), key@, 0) {
            Some(raw) => valid_utf8(decoded_from(encode_utf8(raw), 0)) ==> (r matches Some(v) && v@
                == decode_utf8(decoded_from(encode_utf8(raw), 0))),
            None => r is None,
        },
{
    let cs = chars_of(query);
    let pairs = split_on(cs.as_slice(), '&');
    match find_named(&pairs, key) {
        Some(v) => Some(percent_decode(v.as_str())),
        None => None,
    }
}

/// Every character that percent coding writes is ASCII.
proof fn lemma_encoded_is_ascii(b: Seq<u8>, i: int)
    requires
        0 <= i,
    ensures
        is_ascii_chars(encoded_from(b, i)),
    decreases b.len() - i,
{
    let e = encoded_from(b, i);
    if i < b.len() {
        lemma_encoded_is_ascii(b, i + 1);
        let w = written(b[i]);
        let t = encoded_from(b, i + 1);
        assert forall|j: int| 0 <= j < e.len() implies '\0' <= #[trigger] e[j] <= '\u{7f}' by {
            if j < w.len() {
                assert(e[j] == w[j]);
            } else {
                assert(e[j] == t[j - w.len()]);
            }
        }
    }
}

/// Decoding the bytes that stand for a tail of a row of bytes gives the tail.
proof fn lemma_decode_tail(b: Seq<u8>, x: Seq<u8>, i: int, k: int)
    requires
        0 <= i <= b.len(),
        0 <= k <= x.len(),
        x.skip(k) == encode_utf8(encoded_from(b, i)),
    ensures
        decoded_from(x, k) == b.skip(i),
    decreases b.len() - i,
{
    let e = encoded_from(b, i);
    lemma_encoded_is_ascii(b, i);
    is_ascii_chars_encode_utf8(e);
    if i >= b.len() {
        assert(e.len() == 0);
        assert(x.skip(k).len() == 0);
        assert(decoded_from(x, k) =~= b.skip(i));
    } else {
        let w = written(b[i]);
        let t = encoded_from(b, i + 1);
        lemma_encoded_is_ascii(b, i + 1);
        is_ascii_chars_encode_utf8(t);
        assert forall|j: int| 0 <= j < e.len() implies #[trigger] x[k + j] == e[j] as u8 by {
            assert(x.skip(k)[j] == encode_utf8(e)[j]);
        }
        let m = w.len() as int;
        assert(x.skip(k + m) =~= encode_utf8(t)) by {
            assert forall|j: int| 0 <= j < t.len() implies #[trigger] x.skip(k + m)[j]
                == encode_utf8(t)[j] by {
                assert(x.skip(k + m)[j] == x[k + (m + j)]);
                assert(e[m + j] == t[j]);
            }
        }
        lemma_decode_tail(b, x, i + 1, k + m);
        assert(x[k + 0] == e[0] as u8);
        assert(e[0] == w[0]);
        if is_safe(b[i]) {
            assert((b[i] as char) as u8 == b[i]);
            assert(x[k] == b[i]);
        } else {
            assert(x[k + 1] == e[1] as u8 && e[1] == w[1]);
            assert(x[k + 2] == e[2] as u8 && e[2] == w[2]);
            let h = b[i] as int / 16;
            let l = b[i] as int % 16;
            assert(hex_value(x[k + 1]) == Some(h));
            assert(hex_value(x[k + 2]) == Some(l));
            assert(h * 16 + l == b[i]);
            assert(is_escape(x, k));
        }
        assert(b.skip(i) =~= seq![b[i]] + b.skip(i + 1));
    }
}

/// Reading a text that was written in percent coding gives the text back.
pub proof fn law_percent_round_trip(s: Seq<char>)
    ensures
        decoded_from(encode_utf8(percent_encoded(s)), 0) == encode_utf8(s),
        valid_utf8(encode_utf8(s)),
        decode_utf8(encode_utf8(s)) == s,
{
    let b = encode_utf8(s);
    let x = encode_utf8(percent_encoded(s));
    assert(x.skip(0) =~= x);
    lemma_decode_tail(b, x, 0, 0);
    assert(b.skip(0) =~= b);
    encode_utf8_valid_utf8(s);
    encode_utf8_decode_utf8(s);
}

/// Percent coding writes nothing but percent signs and characters that stand for
/// themselves.
pub proof fn law_percent_is_safe(b: Seq<u8>, i: int)
    requires
        0 <= i,
    ensures
        forall|j: int|
            0 <= j < encoded_from(b, i).len() ==> {
                let c = #[trigger] encoded_from(b, i)[j];
                c == '%' || is_safe(c as u8) && c <= '~'
            },
    decreases b.len() - i,
{
    if i < b.len() {
        law_percent_is_safe(b, i + 1);
        let e = encoded_from(b, i);
        let w = written(b[i]);
        let t = encoded_from(b, i + 1);
        assert forall|j: int| 0 <= j < e.len() implies ({
            let c = #[trigger] e[j];
            c == '%' || is_safe(c as u8) && c <= '~'
        }) by {
            if j < w.len() {
                assert(e[j] == w[j]);
            } else {
                assert(e[j] == t[j - w.len()]);
            }
        }
    }
}

} // verus!
