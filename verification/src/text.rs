//! Character sequences: searching, splitting, trimming and comparing.
pub mod laws;

use vstd::prelude::*;
use vstd::slice::slice_subrange;
use vstd::utf8::*;

verus! {

/// `String::push` appends one character.
pub assume_specification[ String::push ](s: &mut String, c: char)
    ensures
        final(s)@ == old(s)@.push(c),
;

/// The first position at or after `i` that holds `c`, or the length when there
/// is none.
pub open spec fn find_from<T>(s: Seq<T>, c: T, i: int) -> int
    decreases s.len() - i,
{
    if i < 0 || i >= s.len() {
        s.len() as int
    } else if s[i] == c {
        i
    } else {
        find_from(s, c, i + 1)
    }
}

pub proof fn lemma_find_from<T>(s: Seq<T>, c: T, i: int)
    requires
        0 <= i <= s.len(),
    ensures
        i <= find_from(s, c, i) <= s.len(),
        forall|j: int| i <= j < find_from(s, c, i) ==> s[j] != c,
        find_from(s, c, i) < s.len() ==> s[find_from(s, c, i)] == c,
    decreases s.len() - i,
{
    if i < s.len() && s[i] != c {
        lemma_find_from(s, c, i + 1);
    }
}

/// A position with the defining property of [`find_from`] is the one.
pub proof fn lemma_find_from_is<T>(s: Seq<T>, c: T, i: int, r: int)
    requires
        0 <= i <= r <= s.len(),
        forall|j: int| i <= j < r ==> s[j] != c,
        r < s.len() ==> s[r] == c,
    ensures
        find_from(s, c, i) == r,
    decreases s.len() - i,
{
    if i < r {
        lemma_find_from_is(s, c, i + 1, r);
    }
}

/// The characters of `s`.
pub fn chars_of(s: &str) -> (r: Vec<char>)
    ensures
        r@ == s@,
{
    let mut out: Vec<char> = Vec::new();
    for c in it: s.chars()
        invariant
            it.seq() == s@,
            out@ == s@.take(it.index() as int),
    {
        out.push(c);
        assert(out@ =~= s@.take(it.index() + 1));
    }
    assert(out@ =~= s@);
    out
}

/// The string made of the characters `cs`.
pub fn string_of(cs: &[char]) -> (r: String)
    ensures
        r@ == cs@,
{
    let mut out = String::new();
    let n: usize = cs.len();
    let mut i: usize = 0;
    while i < n
        invariant
            n == cs@.len(),
            i <= n,
            out@ == cs@.take(i as int),
        decreases n - i,
    {
        out.push(cs[i]);
        i = i + 1;
        assert(out@ =~= cs@.take(i as int));
    }
    assert(out@ =~= cs@);
    out
}

/// The first position at or after `i` that holds `c`, or the length.
pub fn find_char(s: &[char], c: char, i: usize) -> (r: usize)
    requires
        i <= s@.len(),
    ensures
        r == find_from(s@, c, i as int),
        i <= r <= s@.len(),
{
    let n: usize = s.len();
    let mut k: usize = i;
    while k < n
        invariant
            n == s@.len(),
            i <= k <= n,
            find_from(s@, c, i as int) == find_from(s@, c, k as int),
        decreases n - k,
    {
        if s[k] == c {
            return k;
        }
        k = k + 1;
    }
    k
}

/// Whether two strings hold the same characters.
pub fn same_str(a: &str, b: &str) -> (r: bool)
    ensures
        r == (a@ == b@),
{
    let x = a.as_bytes();
    let y = b.as_bytes();
    if x.len() != y.len() {
        return false;
    }
    let n: usize = x.len();
    let mut i: usize = 0;
    while i < n
        invariant
            n == x@.len() == y@.len(),
            i <= n,
            x@ == encode_utf8(a@),
            y@ == encode_utf8(b@),
            forall|j: int| 0 <= j < i ==> x@[j] == y@[j],
        decreases n - i,
    {
        if x[i] != y[i] {
            return false;
        }
        i = i + 1;
    }
    proof {
        assert(x@ =~= y@);
        encode_utf8_decode_utf8(a@);
        encode_utf8_decode_utf8(b@);
    }
    true
}

/// `std::str::from_utf8`: a byte row that is valid UTF-8 is taken as the string
/// that it encodes, and any other is refused.
#[verifier::external_body]
pub(crate) fn utf8_str(b: &[u8]) -> (r: Option<&str>)
    ensures
        match r {
            Some(s) => valid_utf8(b@) && encode_utf8(s@) == b@,
            None => !valid_utf8(b@),
        },
{
    std::str::from_utf8(b).ok()
}

/// Searching a tail of `s` finds the same places.
pub proof fn lemma_find_in_tail<T>(s: Seq<T>, c: T, k: int, i: int)
    requires
        0 <= k <= i <= s.len(),
    ensures
        find_from(s.skip(k), c, i - k) == find_from(s, c, i) - k,
    decreases s.len() - i,
{
    if i < s.len() && s[i] != c {
        lemma_find_in_tail(s, c, k, i + 1);
    }
}

/// The parts of `s` between the occurrences of `sep`: one more than there are
/// occurrences.
pub open spec fn parts(s: Seq<char>, sep: char) -> Seq<Seq<char>>
    decreases s.len(),
{
    let j = find_from(s, sep, 0);
    proof {
        lemma_find_from(s, sep, 0);
    }
    if j >= s.len() {
        seq![s]
    } else {
        seq![s.take(j)] + parts(s.skip(j + 1), sep)
    }
}

/// The parts of `s` between the first `n - 1` occurrences of `sep`, the last of
/// them holding the rest of `s`.
pub open spec fn parts_n(s: Seq<char>, sep: char, n: int) -> Seq<Seq<char>>
    decreases n,
{
    let j = find_from(s, sep, 0);
    if n <= 1 || j >= s.len() {
        seq![s]
    } else {
        seq![s.take(j)] + parts_n(s.skip(j + 1), sep, n - 1)
    }
}

/// A text without the separator is one part.
pub proof fn lemma_one_part(s: Seq<char>, sep: char)
    requires
        !s.contains(sep),
    ensures
        parts(s, sep) == seq![s],
        forall|n: int| #[trigger] parts_n(s, sep, n) == seq![s],
{
    lemma_find_from(s, sep, 0);
    assert(find_from(s, sep, 0) == s.len());
}

/// A text behind a first separator adds one part in front of its own.
pub proof fn lemma_more_parts(a: Seq<char>, sep: char, b: Seq<char>)
    requires
        !a.contains(sep),
    ensures
        parts(a.push(sep) + b, sep) == seq![a] + parts(b, sep),
        forall|n: int| n > 1 ==> #[trigger] parts_n(a.push(sep) + b, sep, n) == seq![a] + parts_n(
            b,
            sep,
            n - 1,
        ),
{
    let s = a.push(sep) + b;
    assert forall|j: int| 0 <= j < a.len() implies s[j] != sep by {
        assert(s[j] == a[j]);
    }
    assert(s[a.len() as int] == sep);
    lemma_find_from_is(s, sep, 0, a.len() as int);
    assert(s.take(a.len() as int) =~= a);
    assert(s.skip(a.len() as int + 1) =~= b);
}

/// The texts of a list of slices.
pub open spec fn views(v: Seq<&[char]>) -> Seq<Seq<char>> {
    Seq::new(v.len(), |i: int| v[i]@)
}

/// Splits `s` at every occurrence of `sep`.
pub fn split_on<'a>(s: &'a [char], sep: char) -> (r: Vec<&'a [char]>)
    ensures
        views(r@) == parts(s@, sep),
        r@.len() >= 1,
{
    let n: usize = s.len();
    let mut out: Vec<&'a [char]> = Vec::new();
    let mut from: usize = 0;
    assert(s@.skip(0) =~= s@);
    assert(views(out@) + parts(s@.skip(0), sep) =~= parts(s@, sep));
    loop
        invariant
            n == s@.len(),
            from <= n,
            views(out@) + parts(s@.skip(from as int), sep) == parts(s@, sep),
        decreases n - from,
    {
        let j: usize = find_char(s, sep, from);
        let ghost rest = s@.skip(from as int);
        proof {
            lemma_find_in_tail(s@, sep, from as int, from as int);
        }
        let piece = slice_subrange(s, from, j);
        let ghost before = out@;
        out.push(piece);
        assert(piece@ =~= rest.take(j - from));
        assert(views(out@) =~= views(before).push(piece@));
        if j >= n {
            assert(rest.take(j - from) =~= rest);
            assert(views(out@) =~= parts(s@, sep));
            return out;
        }
        assert(rest.skip(j - from + 1) =~= s@.skip(j + 1));
        assert(views(out@) + parts(s@.skip(j + 1), sep) =~= views(before) + (seq![piece@] + parts(
            s@.skip(j + 1),
            sep,
        )));
        from = j + 1;
    }
}

/// Splits `s` at the first `limit - 1` occurrences of `sep`.
pub fn split_n<'a>(s: &'a [char], sep: char, limit: usize) -> (r: Vec<&'a [char]>)
    requires
        limit >= 1,
    ensures
        views(r@) == parts_n(s@, sep, limit as int),
        r@.len() >= 1,
{
    let n: usize = s.len();
    let mut out: Vec<&'a [char]> = Vec::new();
    let mut from: usize = 0;
    let mut left: usize = limit;
    assert(s@.skip(0) =~= s@);
    assert(views(out@) + parts_n(s@.skip(0), sep, limit as int) =~= parts_n(
        s@,
        sep,
        limit as int,
    ));
    loop
        invariant
            n == s@.len(),
            from <= n,
            left >= 1,
            views(out@) + parts_n(s@.skip(from as int), sep, left as int) == parts_n(
                s@,
                sep,
                limit as int,
            ),
        decreases left,
    {
        let j: usize = find_char(s, sep, from);
        let ghost rest = s@.skip(from as int);
        proof {
            lemma_find_in_tail(s@, sep, from as int, from as int);
        }
        let ghost before = out@;
        if left == 1 || j >= n {
            let piece = slice_subrange(s, from, n);
            out.push(piece);
            assert(piece@ =~= rest);
            assert(views(out@) =~= views(before).push(piece@));
            assert(views(out@) =~= parts_n(s@, sep, limit as int));
            return out;
        }
        let piece = slice_subrange(s, from, j);
        out.push(piece);
        assert(piece@ =~= rest.take(j - from));
        assert(views(out@) =~= views(before).push(piece@));
        assert(rest.skip(j - from + 1) =~= s@.skip(j + 1));
        assert(views(out@) + parts_n(s@.skip(j + 1), sep, left - 1) =~= views(before) + (seq![
            piece@,
        ] + parts_n(s@.skip(j + 1), sep, left - 1)));
        from = j + 1;
        left = left - 1;
    }
}

/// Unicode white space.
pub open spec fn is_white(c: char) -> bool {
    let u = c as u32;
    ||| 0x9 <= u <= 0xd
    ||| u == 0x20
    ||| u == 0x85
    ||| u == 0xa0
    ||| u == 0x1680
    ||| 0x2000 <= u <= 0x200a
    ||| u == 0x2028
    ||| u == 0x2029
    ||| u == 0x202f
    ||| u == 0x205f
    ||| u == 0x3000
}

pub fn white(c: char) -> (r: bool)
    ensures
        r == is_white(c),
{
    let u: u32 = c as u32;
    (0x9 <= u && u <= 0xd) || u == 0x20 || u == 0x85 || u == 0xa0 || u == 0x1680 || (0x2000 <= u
        && u <= 0x200a) || u == 0x2028 || u == 0x2029 || u == 0x202f || u == 0x205f || u == 0x3000
}

/// The first place at or after `i` that holds no white space (`white` false)
/// or white space (`white` true), or the length.
pub open spec fn next_white(s: Seq<char>, i: int, white: bool) -> int
    decreases s.len() - i,
{
    if i < 0 || i >= s.len() {
        s.len() as int
    } else if is_white(s[i]) == white {
        i
    } else {
        next_white(s, i + 1, white)
    }
}

pub proof fn lemma_next_white(s: Seq<char>, i: int, white: bool)
    requires
        0 <= i <= s.len(),
    ensures
        i <= next_white(s, i, white) <= s.len(),
        forall|j: int| i <= j < next_white(s, i, white) ==> is_white(#[trigger] s[j]) != white,
        next_white(s, i, white) < s.len() ==> is_white(s[next_white(s, i, white)]) == white,
    decreases s.len() - i,
{
    if i < s.len() && is_white(s[i]) != white {
        lemma_next_white(s, i + 1, white);
    }
}

pub fn seek_white(s: &[char], i: usize, want: bool) -> (r: usize)
    requires
        i <= s@.len(),
    ensures
        r == next_white(s@, i as int, want),
        i <= r <= s@.len(),
{
    let n: usize = s.len();
    let mut k: usize = i;
    while k < n
        invariant
            n == s@.len(),
            i <= k <= n,
            next_white(s@, i as int, want) == next_white(s@, k as int, want),
        decreases n - k,
    {
        if white(s[k]) == want {
            return k;
        }
        k = k + 1;
    }
    k
}

/// The words of `s` from `from` on: its longest runs without white space.
pub open spec fn words_from(s: Seq<char>, from: int) -> Seq<Seq<char>>
    decreases s.len() - from,
    when 0 <= from <= s.len()
{
    let a = next_white(s, from, false);
    let b = next_white(s, a, true);
    proof {
        lemma_next_white(s, from, false);
        lemma_next_white(s, a, true);
    }
    if a >= s.len() {
        Seq::empty()
    } else {
        seq![s.subrange(a, b)] + words_from(s, b)
    }
}

pub open spec fn words(s: Seq<char>) -> Seq<Seq<char>> {
    words_from(s, 0)
}

/// Splits `s` into its words.
pub fn split_words<'a>(s: &'a [char]) -> (r: Vec<&'a [char]>)
    ensures
        views(r@) == words(s@),
{
    let n: usize = s.len();
    let mut out: Vec<&'a [char]> = Vec::new();
    let mut from: usize = 0;
    assert(views(out@) + words_from(s@, 0) =~= words(s@));
    loop
        invariant
            n == s@.len(),
            from <= n,
            views(out@) + words_from(s@, from as int) == words(s@),
        decreases n - from,
    {
        let a: usize = seek_white(s, from, false);
        if a >= n {
            assert(views(out@) =~= words(s@));
            return out;
        }
        let b: usize = seek_white(s, a, true);
        proof {
            lemma_next_white(s@, from as int, false);
            lemma_next_white(s@, a as int, true);
        }
        let piece = slice_subrange(s, a, b);
        let ghost before = out@;
        out.push(piece);
        assert(views(out@) =~= views(before).push(s@.subrange(a as int, b as int)));
        assert(views(out@) + words_from(s@, b as int) =~= views(before) + (seq![
            s@.subrange(a as int, b as int),
        ] + words_from(s@, b as int)));
        from = b;
    }
}

/// Whether `s` begins with `p`.
pub open spec fn has_prefix(s: Seq<char>, p: Seq<char>) -> bool {
    s.len() >= p.len() && s.take(p.len() as int) == p
}

pub fn starts_with(s: &[char], p: &[char]) -> (r: bool)
    ensures
        r == has_prefix(s@, p@),
{
    let m: usize = p.len();
    if s.len() < m {
        return false;
    }
    let mut i: usize = 0;
    while i < m
        invariant
            m == p@.len(),
            m <= s@.len(),
            i <= m,
            forall|j: int| 0 <= j < i ==> s@[j] == p@[j],
        decreases m - i,
    {
        if s[i] != p[i] {
            assert(s@.take(m as int)[i as int] != p@[i as int]);
            return false;
        }
        i = i + 1;
    }
    assert(s@.take(m as int) =~= p@);
    true
}

/// An ASCII letter in lower case, any other character as it is.
pub open spec fn lower_char(c: char) -> char {
    if 'A' <= c <= 'Z' {
        (c as u32 + 32) as char
    } else {
        c
    }
}

/// A text with its ASCII letters in lower case.
pub open spec fn lower(s: Seq<char>) -> Seq<char> {
    Seq::new(s.len(), |i: int| lower_char(s[i]))
}

/// A character with an ASCII letter in lower case.
pub fn to_lower(c: char) -> (r: char)
    ensures
        r == lower_char(c),
{
    if 'A' <= c && c <= 'Z' {
        let b: u8 = c as u8;
        (b + 32) as char
    } else {
        c
    }
}

/// Whether two texts are the same but for the case of ASCII letters.
pub fn same_ignoring_case(a: &str, b: &str) -> (r: bool)
    ensures
        r == (lower(a@) == lower(b@)),
{
    let x = chars_of(a);
    let y = chars_of(b);
    let n: usize = x.len();
    if n != y.len() {
        assert(lower(a@).len() != lower(b@).len());
        return false;
    }
    let mut i: usize = 0;
    while i < n
        invariant
            n == x@.len() == y@.len(),
            x@ == a@,
            y@ == b@,
            i <= n,
            forall|j: int| 0 <= j < i ==> lower_char(#[trigger] x@[j]) == lower_char(y@[j]),
        decreases n - i,
    {
        if to_lower(x[i]) != to_lower(y[i]) {
            assert(lower(a@)[i as int] != lower(b@)[i as int]);
            return false;
        }
        i = i + 1;
    }
    assert(lower(a@) =~= lower(b@));
    true
}

/// `p` occurs in `s` at a place.
pub open spec fn occurs_at(s: Seq<char>, p: Seq<char>, i: int) -> bool {
    0 <= i && i + p.len() <= s.len() && s.subrange(i, i + p.len()) == p
}

/// `p` occurs in `s`.
pub open spec fn occurs(s: Seq<char>, p: Seq<char>) -> bool {
    exists|i: int| #[trigger] occurs_at(s, p, i)
}

/// Whether `p` occurs in `s`.
pub fn contains_text(s: &str, p: &str) -> (r: bool)
    ensures
        r == occurs(s@, p@),
{
    let cs = chars_of(s);
    let ps = chars_of(p);
    let n: usize = cs.len();
    let m: usize = ps.len();
    if m > n {
        return false;
    }
    let mut i: usize = 0;
    loop
        invariant
            n == cs@.len(),
            m == ps@.len(),
            m <= n,
            cs@ == s@,
            ps@ == p@,
            i <= n - m,
            forall|j: int| 0 <= j < i ==> !(#[trigger] occurs_at(s@, p@, j)),
        decreases n - m - i,
    {
        let rest = slice_subrange(cs.as_slice(), i, n);
        let here = starts_with(rest, ps.as_slice());
        assert(rest@.take(m as int) =~= s@.subrange(i as int, i + m));
        assert(here == occurs_at(s@, p@, i as int));
        if here {
            return true;
        }
        if i == n - m {
            return false;
        }
        i = i + 1;
    }
}

/// What lies before and behind the first `sep`.
pub open spec fn once(s: Seq<char>, sep: char) -> Option<(Seq<char>, Seq<char>)> {
    let j = find_from(s, sep, 0);
    if j < s.len() {
        Some((s.take(j), s.skip(j + 1)))
    } else {
        None
    }
}

/// Splits `s` at the first `sep`.
pub fn split_once<'a>(s: &'a [char], sep: char) -> (r: Option<(&'a [char], &'a [char])>)
    ensures
        match r {
            Some((a, b)) => once(s@, sep) == Some((a@, b@)),
            None => once(s@, sep) is None,
        },
{
    let j: usize = find_char(s, sep, 0);
    if j < s.len() {
        let a = slice_subrange(s, 0, j);
        let b = slice_subrange(s, j + 1, s.len());
        assert(a@ =~= s@.take(j as int));
        assert(b@ =~= s@.skip(j + 1));
        Some((a, b))
    } else {
        None
    }
}

/// A text without the white space in front.
pub open spec fn trimmed_start(s: Seq<char>) -> Seq<char> {
    s.skip(next_white(s, 0, false))
}

/// A text without the white space at its end.
pub open spec fn trimmed_end(s: Seq<char>) -> Seq<char>
    decreases s.len(),
{
    if s.len() > 0 && is_white(s.last()) {
        trimmed_end(s.drop_last())
    } else {
        s
    }
}

/// A text without the white space at both ends.
pub open spec fn trimmed(s: Seq<char>) -> Seq<char> {
    trimmed_end(trimmed_start(s))
}

/// Takes the white space in front away.
pub fn trim_start<'a>(s: &'a [char]) -> (r: &'a [char])
    ensures
        r@ == trimmed_start(s@),
{
    let i: usize = seek_white(s, 0, false);
    let r = slice_subrange(s, i, s.len());
    assert(r@ =~= s@.skip(i as int));
    r
}

/// Takes the white space at both ends away.
pub fn trim<'a>(s: &'a [char]) -> (r: &'a [char])
    ensures
        r@ == trimmed(s@),
{
    let t = trim_start(s);
    let mut n: usize = t.len();
    assert(t@.take(n as int) =~= t@);
    while n > 0 && white(t[n - 1])
        invariant
            n <= t@.len(),
            trimmed_end(t@.take(n as int)) == trimmed_end(t@),
        decreases n,
    {
        assert(t@.take(n as int).drop_last() =~= t@.take(n - 1));
        n = n - 1;
    }
    let r = slice_subrange(t, 0, n);
    assert(r@ =~= t@.take(n as int));
    r
}

/// The value of the first part from `i` on of the form `name=value`.
pub open spec fn named_value(v: Seq<Seq<char>>, name: Seq<char>, i: int) -> Option<Seq<char>>
    decreases v.len() - i,
{
    if i < 0 || i >= v.len() {
        None
    } else {
        match once(v[i], '=') {
            Some((k, x)) => if k == name {
                Some(x)
            } else {
                named_value(v, name, i + 1)
            },
            None => named_value(v, name, i + 1),
        }
    }
}

/// The value of the first part of the form `name=value`.
pub fn find_named(v: &Vec<&[char]>, name: &str) -> (r: Option<String>)
    ensures
        match r {
            Some(x) => named_value(views(v@), name@, 0) == Some(x@),
            None => named_value(views(v@), name@, 0) is None,
        },
{
    let n: usize = v.len();
    let mut i: usize = 0;
    while i < n
        invariant
            n == v@.len(),
            i <= n,
            named_value(views(v@), name@, 0) == named_value(views(v@), name@, i as int),
        decreases n - i,
    {
        assert(views(v@)[i as int] == v@[i as int]@);
        match split_once(v[i], '=') {
            Some((k, x)) => {
                if same_str(string_of(k).as_str(), name) {
                    return Some(string_of(x));
                }
            },
            None => {},
        }
        i = i + 1;
    }
    None
}

/// The string that a row of bytes stands for, with a replacement character in
/// place of what is no UTF-8.
pub uninterp spec fn utf8_lossy(b: Seq<u8>) -> Seq<char>;

/// `String::from_utf8_lossy`: valid UTF-8 is taken as the string that it
/// encodes. What stands in place of other bytes is left as a name.
#[verifier::external_body]
pub(crate) fn lossy_string(b: &Vec<u8>) -> (r: String)
    ensures
        r@ == utf8_lossy(b@),
        valid_utf8(b@) ==> r@ == decode_utf8(b@),
{
    String::from_utf8_lossy(b).into_owned()
}

/// Texts with a separator between them.
pub open spec fn joined(v: Seq<Seq<char>>, sep: Seq<char>) -> Seq<char>
    decreases v.len(),
{
    if v.len() == 0 {
        Seq::empty()
    } else if v.len() == 1 {
        v[0]
    } else {
        joined(v.drop_last(), sep) + sep + v.last()
    }
}

/// Joins texts with a separator between them.
pub fn join(v: &Vec<String>, sep: &str) -> (r: String)
    ensures
        r@ == joined(Seq::new(v@.len(), |i: int| v@[i]@), sep@),
{
    let n: usize = v.len();
    let ghost all = Seq::new(v@.len(), |i: int| v@[i]@);
    let mut out = String::new();
    let mut i: usize = 0;
    while i < n
        invariant
            n == v@.len(),
            i <= n,
            all == Seq::new(v@.len(), |i: int| v@[i]@),
            out@ == joined(all.take(i as int), sep@),
        decreases n - i,
    {
        assert(all.take(i + 1).drop_last() =~= all.take(i as int));
        assert(all.take(i + 1).last() == v@[i as int]@);
        if i > 0 {
            out.append(sep);
        }
        out.append(v[i].as_str());
        i = i + 1;
    }
    assert(all.take(n as int) =~= all);
    out
}

} // verus!
