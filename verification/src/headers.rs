//! Request headers, by way of `hyper::HeaderMap`.
use crate::text::lower;
use vstd::prelude::*;
use vstd::utf8::*;

verus! {

#[verifier::external_type_specification]
#[verifier::external_body]
pub struct ExHeaderValue(hyper::header::HeaderValue);

#[verifier::external_type_specification]
#[verifier::external_body]
#[verifier::reject_recursive_types(T)]
pub struct ExHeaderMap<T>(hyper::HeaderMap<T>);

/// The values that a header map holds under each lower-case name, in order.
pub uninterp spec fn header_values(h: hyper::HeaderMap) -> Map<Seq<char>, Seq<Seq<u8>>>;

/// The first value under a name.
pub open spec fn first_value(
    h: Map<Seq<char>, Seq<Seq<u8>>>,
    name: Seq<char>,
) -> Option<Seq<u8>> {
    if h.dom().contains(lower(name)) && h[lower(name)].len() > 0 {
        Some(h[lower(name)][0])
    } else {
        None
    }
}

/// `hyper::HeaderMap::get`: the first value under a name, whose letters' case
/// does not matter, as its bytes.
#[verifier::external_body]
pub(crate) fn get_first(h: &hyper::HeaderMap, name: &str) -> (r: Option<Vec<u8>>)
    ensures
        match r {
            Some(v) => first_value(header_values(*h), name@) == Some(v@),
            None => first_value(header_values(*h), name@) is None,
        },
{
    h.get(name).map(|v| v.as_bytes().to_vec())
}

/// `hyper::HeaderMap::contains_key`: whether there is a value under a name,
/// whose letters' case does not matter. An empty value counts.
#[verifier::external_body]
pub(crate) fn has_header(h: &hyper::HeaderMap, name: &str) -> (r: bool)
    ensures
        r == (first_value(header_values(*h), name@) is Some),
{
    h.contains_key(name)
}

/// All the values under a name.
pub open spec fn all_values(h: Map<Seq<char>, Seq<Seq<u8>>>, name: Seq<char>) -> Seq<Seq<u8>> {
    if h.dom().contains(lower(name)) {
        h[lower(name)]
    } else {
        Seq::empty()
    }
}

/// The bytes of a list of values.
pub open spec fn byte_rows(v: Seq<Vec<u8>>) -> Seq<Seq<u8>> {
    Seq::new(v.len(), |i: int| v[i]@)
}

/// `hyper::HeaderMap::get_all`: all the values under a name, whose letters'
/// case does not matter, in order, as their bytes.
#[verifier::external_body]
pub(crate) fn get_every(h: &hyper::HeaderMap, name: &str) -> (r: Vec<Vec<u8>>)
    ensures
        byte_rows(r@) == all_values(header_values(*h), name@),
{
    h.get_all(name).iter().map(|v| v.as_bytes().to_vec()).collect()
}

/// A byte that a header value shows as text: visible ASCII, blank or tab.
pub open spec fn is_text_byte(b: u8) -> bool {
    0x20 <= b < 0x7f || b == 0x09
}

/// The text of a header value, if all of it is text.
pub open spec fn value_text(v: Seq<u8>) -> Option<Seq<char>> {
    if forall|i: int| 0 <= i < v.len() ==> is_text_byte(#[trigger] v[i]) {
        Some(Seq::new(v.len(), |i: int| v[i] as char))
    } else {
        None
    }
}

/// Reads a header value as text.
pub fn text_of(v: &Vec<u8>) -> (r: Option<String>)
    ensures
        match r {
            Some(s) => value_text(v@) == Some(s@),
            None => value_text(v@) is None,
        },
{
    let n: usize = v.len();
    let mut out = String::new();
    let mut i: usize = 0;
    while i < n
        invariant
            n == v@.len(),
            i <= n,
            forall|j: int| 0 <= j < i ==> is_text_byte(#[trigger] v@[j]),
            out@ == Seq::new(i as nat, |j: int| v@[j] as char),
        decreases n - i,
    {
        let b: u8 = v[i];
        if !((0x20 <= b && b < 0x7f) || b == 0x09) {
            assert(!is_text_byte(v@[i as int]));
            return None;
        }
        out.push(b as char);
        i = i + 1;
        assert(out@ =~= Seq::new(i as nat, |j: int| v@[j] as char));
    }
    Some(out)
}

/// The text of the first value under a name.
pub open spec fn first_text(
    h: Map<Seq<char>, Seq<Seq<u8>>>,
    name: Seq<char>,
) -> Option<Seq<char>> {
    match first_value(h, name) {
        Some(v) => value_text(v),
        None => None,
    }
}

/// Reads the first value under a name as text.
pub fn get_text(h: &hyper::HeaderMap, name: &str) -> (r: Option<String>)
    ensures
        match r {
            Some(s) => first_text(header_values(*h), name@) == Some(s@),
            None => first_text(header_values(*h), name@) is None,
        },
{
    match get_first(h, name) {
        Some(v) => text_of(&v),
        None => None,
    }
}

/// `hyper::HeaderMap::remove`: takes away all the values under a name, whose
/// letters' case does not matter. A map holds finitely many names.
#[verifier::external_body]
pub(crate) fn drop_header(h: &mut hyper::HeaderMap, name: &str)
    ensures
        header_values(*final(h)) == header_values(*old(h)).remove(lower(name@)),
        header_values(*final(h)).dom().finite(),
{
    h.remove(name);
}

/// A byte that a header value may hold.
pub open spec fn is_value_byte(b: u8) -> bool {
    b >= 0x20 && b != 0x7f || b == 0x09
}

/// A row of bytes that is a header value.
pub open spec fn is_value(v: Seq<u8>) -> bool {
    forall|i: int| 0 <= i < v.len() ==> is_value_byte(#[trigger] v[i])
}

/// A byte of a header name in lower case.
pub open spec fn is_name_char(c: char) -> bool {
    'a' <= c <= 'z' || '0' <= c <= '9' || c == '-'
}

/// A header name in lower case, as far as letters, digits and dashes go.
pub open spec fn is_plain_name(s: Seq<char>) -> bool {
    0 < s.len() <= 64 && forall|i: int| 0 <= i < s.len() ==> is_name_char(#[trigger] s[i])
}

/// The most names with which a header map always takes another: with more, a table of
/// the largest size may want to grow.
pub const ROOMY_NAMES: usize = 6553;

/// `hyper::HeaderMap::try_insert`: sets the one value under a name. It is owed where
/// the text is a header value and the map holds no more than `ROOMY_NAMES` names: the
/// table has at most 32768 places, and with fewer names than a fifth of its places it
/// does not grow.
#[verifier::external_body]
pub(crate) fn set_header(h: &mut hyper::HeaderMap, name: &str, value: &str) -> (r: bool)
    requires
        is_plain_name(name@),
    ensures
        r ==> is_value(encode_utf8(value@)) && header_values(*final(h)) == header_values(
            *old(h),
        ).insert(name@, seq![encode_utf8(value@)]),
        !r ==> header_values(*final(h)) == header_values(*old(h)),
        is_value(encode_utf8(value@)) && header_values(*old(h)).dom().finite() && header_values(
            *old(h),
        ).dom().len() <= ROOMY_NAMES ==> r,
{
    match (name.parse::<hyper::header::HeaderName>(), hyper::header::HeaderValue::from_str(value)) {
        (Ok(n), Ok(v)) => h.try_insert(n, v).is_ok(),
        _ => false,
    }
}

/// A text of visible ASCII characters reads back from a header value.
pub proof fn lemma_visible_value(s: Seq<char>)
    requires
        forall|i: int| 0 <= i < s.len() ==> ' ' <= #[trigger] s[i] <= '~',
    ensures
        is_value(encode_utf8(s)),
        value_text(encode_utf8(s)) == Some(s),
{
    assert(is_ascii_chars(s));
    is_ascii_chars_encode_utf8(s);
    let v = encode_utf8(s);
    assert forall|i: int| 0 <= i < v.len() implies is_text_byte(#[trigger] v[i]) && v[i] as char
        == s[i] && is_value_byte(v[i]) by {
        assert(s[i] as u8 == v[i]);
    }
    assert(value_text(v)->0 =~= s);
}

/// The first value of a header is the first one under its name, which is compared in lower
/// case.
pub proof fn law_first_value_by_name(h: Map<Seq<char>, Seq<Seq<u8>>>, name: Seq<char>)
    ensures
        first_value(h, name) == first_value(h, lower(name)),
        first_value(h, name) is Some <==> h.dom().contains(lower(name)) && h[lower(name)].len() > 0,
        first_value(h, name) is Some ==> first_value(h, name)->0 == h[lower(name)][0],
        all_values(h, name) == (if h.dom().contains(lower(name)) {
            h[lower(name)]
        } else {
            Seq::empty()
        }),
{
    assert(lower(lower(name)) =~= lower(name));
}

/// A value is text if and only if it holds visible ASCII characters, blanks and tabs only. It
/// is then the text of these characters.
pub proof fn law_text_of_a_value(h: Map<Seq<char>, Seq<Seq<u8>>>, name: Seq<char>, v: Seq<u8>, i: int)
    ensures
        value_text(v) is Some <==> forall|k: int|
            0 <= k < v.len() ==> 0x20 <= #[trigger] v[k] <= 0x7e || v[k] == 0x09,
        value_text(v) matches Some(s) ==> s.len() == v.len() && (0 <= i < v.len() ==> s[i] as int
            == v[i]),
        first_text(h, name) == (match first_value(h, name) {
            Some(b) => value_text(b),
            None => None,
        }),
{
    if value_text(v) is Some {
        assert forall|k: int| 0 <= k < v.len() implies 0x20 <= #[trigger] v[k] <= 0x7e || v[k] == 0x09 by {
            assert(is_text_byte(v[k]));
        }
    }
}

/// A byte may stand in a header value if and only if it is a tab or no control character.
pub proof fn law_value_byte(v: Seq<u8>)
    ensures
        is_value(v) <==> forall|i: int|
            0 <= i < v.len() ==> #[trigger] v[i] == 0x09 || v[i] >= 0x20 && v[i] != 0x7f,
{
    if is_value(v) {
        assert forall|i: int| 0 <= i < v.len() implies #[trigger] v[i] == 0x09 || v[i] >= 0x20 && v[i] != 0x7f by {
            assert(is_value_byte(v[i]));
        }
    }
}

/// A plain name is up to 64 small letters, digits and dashes.
pub proof fn law_plain_names(s: Seq<char>)
    ensures
        is_plain_name(s) <==> 1 <= s.len() <= 64 && forall|i: int|
            0 <= i < s.len() ==> {
                let u = #[trigger] s[i] as int;
                97 <= u <= 122 || 48 <= u <= 57 || u == 45
            },
{
}

} // verus!
