//! What cutting, trimming and joining texts does, in terms of their characters.
use crate::text::{
    find_from, has_prefix, is_white, joined, lemma_find_from, lemma_find_from_is, lemma_more_parts,
    lemma_next_white, lemma_one_part, lower, named_value, next_white, occurs, occurs_at, once,
    parts, parts_n, trimmed, trimmed_end, trimmed_start, views, words, words_from,
};
use vstd::prelude::*;

verus! {

/// Among the ASCII characters, blanks, tabs and line ends are white space and no others.
pub proof fn law_ascii_white_space(c: char)
    requires
        c < '\u{80}',
    ensures
        is_white(c) <==> c == ' ' || c == '\t' || c == '\n' || c == '\x0b' || c == '\x0c' || c
            == '\r',
{
}

/// Letters from A to Z become the letters from a to z, and nothing else changes.
pub proof fn law_lower_case(s: Seq<char>, i: int)
    requires
        0 <= i < s.len(),
    ensures
        lower(s).len() == s.len(),
        'A' <= s[i] <= 'Z' ==> lower(s)[i] as int == s[i] as int + 32,
        !('A' <= s[i] <= 'Z') ==> lower(s)[i] == s[i],
        lower(lower(s)) == lower(s),
{
    assert(lower(lower(s)) =~= lower(s));
}

/// A text is cut at the first separator, if there is one.
pub proof fn law_cut_once(a: Seq<char>, sep: char, b: Seq<char>)
    requires
        !a.contains(sep),
    ensures
        once(a.push(sep) + b, sep) == Some((a, b)),
        once(a, sep) is None,
{
    let s = a.push(sep) + b;
    assert forall|j: int| 0 <= j < a.len() implies s[j] != sep && a[j] != sep by {
        assert(s[j] == a[j]);
        assert(a.contains(a[j]));
    }
    lemma_find_from_is(s, sep, 0, a.len() as int);
    lemma_find_from_is(a, sep, 0, a.len() as int);
    assert(s.take(a.len() as int) =~= a);
    assert(s.skip(a.len() as int + 1) =~= b);
}

/// Cutting into one part leaves the text whole.
pub proof fn law_one_part_is_all(s: Seq<char>, sep: char)
    ensures
        parts_n(s, sep, 1) == seq![s],
{
}

/// The parts of a text with the separator between them make the text again, and none of them
/// holds a separator.
pub proof fn law_parts_join_again(s: Seq<char>, sep: char)
    ensures
        joined(parts(s, sep), seq![sep]) == s,
        parts(s, sep).len() >= 1,
        forall|i: int| 0 <= i < parts(s, sep).len() ==> !(#[trigger] parts(s, sep)[i]).contains(sep),
    decreases s.len(),
{
    let j = find_from(s, sep, 0);
    lemma_find_from(s, sep, 0);
    let p = parts(s, sep);
    if j >= s.len() {
        assert(p == seq![s]);
        assert(!s.contains(sep)) by {
            if s.contains(sep) {
                let i = choose|i: int| 0 <= i < s.len() && s[i] == sep;
                assert(s[i] == sep);
            }
        }
    } else {
        let rest = s.skip(j + 1);
        law_parts_join_again(rest, sep);
        let q = parts(rest, sep);
        assert(p == seq![s.take(j)] + q);
        lemma_joined_front(s.take(j), q, seq![sep]);
        assert(s.take(j) + seq![sep] + rest =~= s);
        assert(!s.take(j).contains(sep)) by {
            if s.take(j).contains(sep) {
                let i = choose|i: int| 0 <= i < j && s.take(j)[i] == sep;
                assert(s[i] == sep);
            }
        }
        assert forall|i: int| 0 <= i < p.len() implies !(#[trigger] p[i]).contains(sep) by {
            if i > 0 {
                assert(p[i] == q[i - 1]);
            }
        }
    }
}

proof fn lemma_joined_front(a: Seq<char>, v: Seq<Seq<char>>, sep: Seq<char>)
    requires
        v.len() >= 1,
    ensures
        joined(seq![a] + v, sep) == a + sep + joined(v, sep),
    decreases v.len(),
{
    let w = seq![a] + v;
    assert(w.last() == v.last());
    if v.len() == 1 {
        assert(w.drop_last() =~= seq![a]);
        assert(joined(seq![a], sep) == a);
        assert(joined(v, sep) == v[0]);
    } else {
        assert(w.drop_last() =~= seq![a] + v.drop_last());
        lemma_joined_front(a, v.drop_last(), sep);
        assert(joined(w, sep) =~= a + sep + joined(v, sep));
    }
}

/// Joining puts the separator between two texts and nowhere else.
pub proof fn law_join(v: Seq<Seq<char>>, s: Seq<char>, sep: Seq<char>)
    ensures
        joined(Seq::empty(), sep) == Seq::<char>::empty(),
        joined(seq![s], sep) == s,
        v.len() >= 1 ==> joined(v.push(s), sep) == joined(v, sep) + sep + s,
{
    assert(v.push(s).drop_last() =~= v);
}

/// Text without white space.
pub open spec fn is_solid(s: Seq<char>) -> bool {
    forall|i: int| 0 <= i < s.len() ==> !is_white(#[trigger] s[i])
}

/// Text of white space.
pub open spec fn is_blank(s: Seq<char>) -> bool {
    forall|i: int| 0 <= i < s.len() ==> is_white(#[trigger] s[i])
}

proof fn lemma_next_white_is(s: Seq<char>, i: int, white: bool, r: int)
    requires
        0 <= i <= r <= s.len(),
        forall|j: int| i <= j < r ==> is_white(#[trigger] s[j]) != white,
        r < s.len() ==> is_white(s[r]) == white,
    ensures
        next_white(s, i, white) == r,
    decreases r - i,
{
    if i < r {
        assert(is_white(s[i]) != white);
        lemma_next_white_is(s, i + 1, white, r);
    }
}

proof fn lemma_next_white_behind(a: Seq<char>, b: Seq<char>, i: int, white: bool)
    requires
        0 <= i <= b.len(),
    ensures
        next_white(a + b, a.len() + i, white) == a.len() + next_white(b, i, white),
    decreases b.len() - i,
{
    if i < b.len() {
        assert((a + b)[a.len() + i] == b[i]);
        if is_white(b[i]) != white {
            lemma_next_white_behind(a, b, i + 1, white);
        }
    }
}

proof fn lemma_words_behind(a: Seq<char>, b: Seq<char>, i: int)
    requires
        0 <= i <= b.len(),
    ensures
        words_from(a + b, a.len() + i) == words_from(b, i),
    decreases b.len() - i,
{
    let x = next_white(b, i, false);
    let y = next_white(b, x, true);
    lemma_next_white(b, i, false);
    lemma_next_white(b, x, true);
    lemma_next_white_behind(a, b, i, false);
    lemma_next_white_behind(a, b, x, true);
    if x < b.len() {
        assert((a + b).subrange(a.len() + x, a.len() + y) =~= b.subrange(x, y));
        if y == x {
            assert(is_white(b[x]) == false);
        }
        lemma_words_behind(a, b, y);
    }
}

/// The words of a text: white space between words does not count, and a word ends where white
/// space begins.
pub proof fn law_words(a: Seq<char>, w: Seq<char>, gap: Seq<char>, rest: Seq<char>)
    requires
        is_solid(w),
        w.len() > 0,
        is_blank(gap),
        gap.len() > 0,
        is_blank(a),
    ensures
        words(Seq::empty()) == Seq::<Seq<char>>::empty(),
        words(a) == Seq::<Seq<char>>::empty(),
        words(a + rest) == words(rest),
        words(w) == seq![w],
        words(w + gap + rest) == seq![w] + words(rest),
{
    let none = Seq::<char>::empty();
    lemma_next_white_is(none, 0, false, 0);
    lemma_next_white_is(a, 0, false, a.len() as int);
    // Blanks in front.
    let t = a + rest;
    lemma_next_white_behind(a, rest, 0, false);
    let x = next_white(rest, 0, false);
    lemma_next_white(rest, 0, false);
    assert forall|j: int| 0 <= j < a.len() + x implies is_white(#[trigger] t[j]) != false by {
        if j < a.len() {
            assert(t[j] == a[j]);
        } else {
            assert(t[j] == rest[j - a.len()]);
        }
    }
    if x < rest.len() {
        assert(t[a.len() + x] == rest[x]);
    }
    lemma_next_white_is(t, 0, false, a.len() + x);
    lemma_words_behind(a, rest, 0);
    assert(next_white(t, a.len() as int, false) == a.len() + x);
    assert(words_from(t, 0) == words_from(t, a.len() as int));
    // A word alone.
    assert(!is_white(w[0]));
    lemma_next_white_is(w, 0, false, 0);
    lemma_next_white_is(w, 0, true, w.len() as int);
    assert(w.subrange(0, w.len() as int) =~= w);
    assert(next_white(w, w.len() as int, false) == w.len());
    assert(words_from(w, w.len() as int) =~= Seq::<Seq<char>>::empty());
    assert(words(w) =~= seq![w]);
    // A word and more.
    let u = w + gap + rest;
    assert(u[0] == w[0]);
    lemma_next_white_is(u, 0, false, 0);
    assert forall|j: int| 0 <= j < w.len() implies is_white(#[trigger] u[j]) != true by {
        assert(u[j] == w[j]);
    }
    assert(u[w.len() as int] == gap[0]);
    assert(is_white(gap[0]));
    lemma_next_white_is(u, 0, true, w.len() as int);
    assert(u.subrange(0, w.len() as int) =~= w);
    assert(u =~= w + (gap + rest));
    lemma_words_behind(w, gap + rest, 0);
    lemma_words_gap(gap, rest);
}

proof fn lemma_words_gap(gap: Seq<char>, rest: Seq<char>)
    requires
        is_blank(gap),
    ensures
        words_from(gap + rest, 0) == words(rest),
{
    let t = gap + rest;
    lemma_next_white_behind(gap, rest, 0, false);
    let x = next_white(rest, 0, false);
    lemma_next_white(rest, 0, false);
    assert forall|j: int| 0 <= j < gap.len() + x implies is_white(#[trigger] t[j]) != false by {
        if j < gap.len() {
            assert(t[j] == gap[j]);
        } else {
            assert(t[j] == rest[j - gap.len()]);
        }
    }
    if x < rest.len() {
        assert(t[gap.len() + x] == rest[x]);
    }
    lemma_next_white_is(t, 0, false, gap.len() + x);
    lemma_words_behind(gap, rest, 0);
    assert(words_from(t, 0) == words_from(t, gap.len() as int));
}

proof fn lemma_trimmed_end(s: Seq<char>, b: Seq<char>)
    requires
        is_blank(b),
        s.len() == 0 || !is_white(s.last()),
    ensures
        trimmed_end(s + b) == s,
    decreases b.len(),
{
    if b.len() == 0 {
        assert(s + b =~= s);
    } else {
        assert((s + b).last() == b.last());
        assert(is_white(b[b.len() - 1]));
        assert((s + b).drop_last() =~= s + b.drop_last());
        lemma_trimmed_end(s, b.drop_last());
    }
}

/// Trimming takes the white space off both ends, all of it and nothing else.
pub proof fn law_trim(a: Seq<char>, s: Seq<char>, b: Seq<char>)
    requires
        is_blank(a),
        is_blank(b),
        s.len() > 0,
        !is_white(s[0]),
        !is_white(s.last()),
    ensures
        trimmed(a + s + b) == s,
        trimmed_start(a + s + b) == s + b,
        trimmed(a) == Seq::<char>::empty(),
        trimmed_start(a) == Seq::<char>::empty(),
{
    let t = a + s + b;
    assert forall|j: int| 0 <= j < a.len() implies is_white(#[trigger] t[j]) != false by {
        assert(t[j] == a[j]);
    }
    assert(t[a.len() as int] == s[0]);
    lemma_next_white_is(t, 0, false, a.len() as int);
    lemma_next_white_is(a, 0, false, a.len() as int);
    assert(t.skip(a.len() as int) =~= s + b);
    assert(a.skip(a.len() as int) =~= Seq::<char>::empty());
    lemma_trimmed_end(s, b);
    lemma_trimmed_end(Seq::empty(), Seq::empty());
}

/// A text begins with another if and only if it is that with something behind it.
pub proof fn law_prefix(s: Seq<char>, p: Seq<char>, rest: Seq<char>)
    ensures
        has_prefix(p + rest, p),
        has_prefix(s, p) ==> s == p + s.skip(p.len() as int),
{
    assert((p + rest).take(p.len() as int) =~= p);
    if has_prefix(s, p) {
        assert(s =~= s.take(p.len() as int) + s.skip(p.len() as int));
    }
}

/// A text occurs in another if and only if that is something before it and something behind
/// it.
pub proof fn law_occurs(a: Seq<char>, p: Seq<char>, b: Seq<char>, s: Seq<char>)
    ensures
        occurs(a + p + b, p),
        occurs(s, p) ==> exists|x: Seq<char>, y: Seq<char>| s == #[trigger] (x + p + y),
{
    let t = a + p + b;
    assert(t.subrange(a.len() as int, (a.len() + p.len()) as int) =~= p);
    assert(occurs_at(t, p, a.len() as int));
    if occurs(s, p) {
        let i = choose|i: int| #[trigger] occurs_at(s, p, i);
        let x = s.take(i);
        let y = s.skip(i + p.len());
        assert(s =~= x + p + y);
    }
}

/// The value under a name is that of the first pair that has the name before its equals sign.
pub proof fn law_first_named_value(
    v: Seq<Seq<char>>,
    name: Seq<char>,
    value: Seq<char>,
    k: int,
)
    requires
        0 <= k < v.len(),
        !name.contains('='),
        v[k] == name.push('=') + value,
        forall|j: int, x: Seq<char>| 0 <= j < k ==> #[trigger] v[j] != #[trigger] (name.push('=') + x),
    ensures
        named_value(v, name, 0) == Some(value),
{
    law_cut_once(name, '=', value);
    lemma_named(v, name, 0, k);
}

proof fn lemma_named(v: Seq<Seq<char>>, name: Seq<char>, i: int, k: int)
    requires
        0 <= i <= k <= v.len(),
        forall|j: int, x: Seq<char>| 0 <= j < k ==> #[trigger] v[j] != #[trigger] (name.push('=') + x),
    ensures
        named_value(v, name, i) == named_value(v, name, k),
    decreases k - i,
{
    if i < k {
        if let Some((n, x)) = once(v[i], '=') {
            let j = find_from(v[i], '=', 0);
            lemma_find_from(v[i], '=', 0);
            assert(v[i] =~= n.push('=') + x);
            if n == name {
                assert(v[i] == name.push('=') + x);
            }
        }
        lemma_named(v, name, i + 1, k);
    }
}

/// Without a pair that has the name before its equals sign there is no value.
pub proof fn law_no_named_value(v: Seq<Seq<char>>, name: Seq<char>)
    requires
        forall|j: int, x: Seq<char>|
            0 <= j < v.len() ==> #[trigger] v[j] != #[trigger] (name.push('=') + x),
    ensures
        named_value(v, name, 0) is None,
{
    lemma_named(v, name, 0, v.len() as int);
}

/// White space: the controls from tab to carriage return, the blank, and the other white space
/// of Unicode.
pub proof fn law_white_space(c: char)
    ensures
        is_white(c) <==> {
            let u = c as int;
            ||| 9 <= u <= 13 || u == 32 || u == 133 || u == 160
            ||| u == 5760 || 8192 <= u <= 8202 || u == 8232 || u == 8233
            ||| u == 8239 || u == 8287 || u == 12288
        },
{
}

/// Cutting into several parts takes the first off at the first separator, and goes on behind it.
pub proof fn law_some_parts(a: Seq<char>, sep: char, b: Seq<char>, n: int)
    requires
        !a.contains(sep),
        n > 1,
    ensures
        parts_n(a, sep, n) == seq![a],
        parts_n(a.push(sep) + b, sep, n) == seq![a] + parts_n(b, sep, n - 1),
        parts(a, sep) == seq![a],
        parts(a.push(sep) + b, sep) == seq![a] + parts(b, sep),
{
    lemma_one_part(a, sep);
    lemma_more_parts(a, sep, b);
}

/// A list of slices, by value.
pub proof fn law_slices_by_value(v: Seq<&[char]>, i: int)
    ensures
        views(v).len() == v.len(),
        0 <= i < v.len() ==> views(v)[i] == v[i]@,
{
}

} // verus!
