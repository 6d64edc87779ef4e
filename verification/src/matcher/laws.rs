//! Which requests a predicate accepts, in terms of the request itself.
use crate::headers::first_text;
use crate::matcher::{
    all_accept, first_pair, key_value, raw_param, HeaderMatch, MatchPredicate, RequestView,
};
use crate::pattern::{regex_compiles, regex_finds, whole, Pattern};
use crate::text::{find_from, lemma_find_from, lemma_find_from_is, lower, parts};
use vstd::prelude::*;

verus! {

/// A method predicate accepts a request whose method is one of the listed ones, letter by
/// letter, and no other.
pub proof fn law_method_is_listed(methods: Vec<String>, req: RequestView)
    ensures
        MatchPredicate::Method(methods).accepts(req) <==> exists|i: int|
            0 <= i < methods@.len() && (#[trigger] methods@[i])@ == req.method,
{
}

proof fn lemma_header(p: MatchPredicate, req: RequestView, v: Seq<char>)
    requires
        p is Header,
        first_text(req.headers, p->Header_name@) == Some(v),
    ensures
        p.accepts(req) == exists|i: int|
            0 <= i < p->Header_values@.len() && (#[trigger] p->Header_values@[i]).allows(v),
{
    match p {
        MatchPredicate::Header { name, values } => {
            if exists|i: int| 0 <= i < values@.len() && (#[trigger] values@[i]).allows(v) {
                assert(p.accepts(req));
            }
        },
        _ => {},
    }
}

/// A header predicate of exact values accepts a request if and only if the first value of
/// the header is text and is one of them.
pub proof fn law_exact_header_is_listed(
    name: String,
    values: Vec<HeaderMatch>,
    texts: Seq<Seq<char>>,
    req: RequestView,
)
    requires
        texts.len() == values@.len(),
        forall|i: int|
            0 <= i < values@.len() ==> (#[trigger] values@[i] matches HeaderMatch::Exact(s) && s@
                == texts[i]),
    ensures
        (MatchPredicate::Header { name, values }).accepts(req) <==> (first_text(
            req.headers,
            name@,
        ) matches Some(v) && texts.contains(v)),
{
    let p = MatchPredicate::Header { name, values };
    match first_text(req.headers, name@) {
        Some(v) => {
            let some = exists|i: int| 0 <= i < values@.len() && (#[trigger] values@[i]).allows(v);
            lemma_header(p, req, v);
            if some {
                let i = choose|i: int| 0 <= i < values@.len() && (#[trigger] values@[i]).allows(v);
                assert(texts[i] == v);
                assert(texts.contains(v));
            }
            if texts.contains(v) {
                let i = choose|i: int| 0 <= i < texts.len() && texts[i] == v;
                assert(values@[i].allows(v));
                assert(some);
            }
        },
        None => {},
    }
}

/// An exact value accepts one text only.
pub proof fn law_exact_value_is_one(want: HeaderMatch, a: Seq<char>, b: Seq<char>)
    requires
        want is Exact,
        want.allows(a),
        want.allows(b),
    ensures
        a == b,
        a == want->Exact_0@,
{
}

/// An expression accepts a text in which it is found between anchors. Where it cannot stand
/// between them as it is, a line break stands behind it.
pub proof fn law_expression_covers_the_value(want: HeaderMatch, v: Seq<char>)
    requires
        want is Regex,
    ensures
        ({
            let plain = "^(?:"@ + want->Regex_0@ + ")$"@;
            let broken = "^(?:"@ + want->Regex_0@ + "\n)$"@;
            want.allows(v) == (if regex_compiles(plain) {
                regex_finds(plain, v)
            } else {
                regex_finds(broken, v)
            })
        }),
{
    let p = want->Regex_0@;
    reveal_strlit("");
    reveal_strlit("\n");
    reveal_strlit(")$");
    reveal_strlit("\n)$");
    assert("^(?:"@ + p + ""@ + ")$"@ =~= "^(?:"@ + p + ")$"@);
    assert("^(?:"@ + p + "\n"@ + ")$"@ =~= "^(?:"@ + p + "\n)$"@);
    assert(want.allows(v) == regex_finds(whole(p), v));
}

/// A header predicate accepts a request if and only if the first value of the header is
/// text that one of its alternatives accepts.
pub proof fn law_header_alternatives(name: String, values: Vec<HeaderMatch>, req: RequestView)
    ensures
        (MatchPredicate::Header { name, values }).accepts(req) <==> (first_text(
            req.headers,
            name@,
        ) is Some && exists|i: int|
            0 <= i < values@.len() && (#[trigger] values@[i]).allows(
                first_text(req.headers, name@)->0,
            )),
{
    if let Some(v) = first_text(req.headers, name@) {
        let p = MatchPredicate::Header { name, values };
        lemma_header(p, req, v);
        if exists|i: int| 0 <= i < values@.len() && (#[trigger] values@[i]).allows(v) {
            let i = choose|i: int| 0 <= i < values@.len() && (#[trigger] values@[i]).allows(v);
            assert(p->Header_values@[i].allows(v));
        }
        if p.accepts(req) {
            let i = choose|i: int|
                0 <= i < p->Header_values@.len() && (#[trigger] p->Header_values@[i]).allows(v);
            assert(values@[i].allows(v));
        }
    }
}

/// A header is absent if and only if the request has no value under its name, in lower
/// case.
pub proof fn law_header_is_absent(name: String, req: RequestView)
    ensures
        (MatchPredicate::HeaderAbsent { name }).accepts(req) <==> !(req.headers.dom().contains(
            lower(name@),
        ) && req.headers[lower(name@)].len() > 0),
{
}

/// The pair of a query string that names a parameter and gives it a value. Without an
/// equals sign the value is empty.
pub open spec fn gives(pair: Seq<char>, name: Seq<char>, value: Seq<char>) -> bool {
    &&& !name.contains('=')
    &&& pair == name.push('=') + value || pair == name && value == Seq::<char>::empty()
}

proof fn lemma_key(pair: Seq<char>, name: Seq<char>)
    ensures
        ({
            let (k, v) = key_value(pair);
            gives(pair, k, v)
        }),
        forall|n: Seq<char>, x: Seq<char>| #[trigger]
            gives(pair, n, x) ==> key_value(pair) == (n, x),
{
    let j = find_from(pair, '=', 0);
    lemma_find_from(pair, '=', 0);
    let (k, v) = key_value(pair);
    assert(!k.contains('=')) by {
        if k.contains('=') {
            let i = choose|i: int| 0 <= i < k.len() && k[i] == '=';
            assert(pair[i] == '=');
        }
    }
    if j < pair.len() {
        assert(pair =~= k.push('=') + v);
    }
    assert forall|n: Seq<char>, x: Seq<char>| #[trigger] gives(pair, n, x) implies key_value(
        pair,
    ) == (n, x) by {
        if pair == n.push('=') + x {
            assert forall|i: int| 0 <= i < n.len() implies pair[i] != '=' by {
                assert(pair[i] == n[i]);
                assert(n.contains(n[i]));
            }
            assert(pair[n.len() as int] == '=');
            lemma_find_from_is(pair, '=', 0, n.len() as int);
            assert(pair.take(n.len() as int) =~= n);
            assert(pair.skip(n.len() as int + 1) =~= x);
        } else {
            assert forall|i: int| 0 <= i < pair.len() implies pair[i] != '=' by {
                assert(n.contains(n[i]));
            }
            lemma_find_from_is(pair, '=', 0, pair.len() as int);
        }
    }
}

proof fn lemma_first_pair(pairs: Seq<Seq<char>>, name: Seq<char>, i: int, k: int)
    requires
        0 <= i <= k <= pairs.len(),
        forall|j: int| i <= j < k ==> key_value(#[trigger] pairs[j]).0 != name,
        k < pairs.len() ==> key_value(pairs[k]).0 == name,
    ensures
        first_pair(pairs, name, i) == (if k < pairs.len() {
            Some(key_value(pairs[k]).1)
        } else {
            None
        }),
    decreases k - i,
{
    if i < k {
        lemma_first_pair(pairs, name, i + 1, k);
    }
}

/// The value of a parameter is that of the first pair between ampersands that names it.
pub proof fn law_first_pair_counts(query: Seq<char>, name: Seq<char>, k: int, value: Seq<char>)
    requires
        0 <= k < parts(query, '&').len(),
        gives(parts(query, '&')[k], name, value),
        forall|j: int, v: Seq<char>| 0 <= j < k ==> !#[trigger] gives(parts(query, '&')[j], name, v),
    ensures
        raw_param(query, name) == Some(value),
{
    let p = parts(query, '&');
    assert forall|j: int| 0 <= j < k implies key_value(#[trigger] p[j]).0 != name by {
        lemma_key(p[j], name);
        assert(!gives(p[j], name, key_value(p[j]).1));
    }
    lemma_key(p[k], name);
    lemma_first_pair(p, name, 0, k);
}

/// A parameter that no pair names has no value.
pub proof fn law_unnamed_parameter(query: Seq<char>, name: Seq<char>)
    requires
        forall|j: int, v: Seq<char>|
            0 <= j < parts(query, '&').len() ==> !#[trigger] gives(parts(query, '&')[j], name, v),
    ensures
        raw_param(query, name) is None,
{
    let p = parts(query, '&');
    assert forall|j: int| 0 <= j < p.len() implies key_value(#[trigger] p[j]).0 != name by {
        lemma_key(p[j], name);
        assert(!gives(p[j], name, key_value(p[j]).1));
    }
    lemma_first_pair(p, name, 0, p.len() as int);
}

/// A query predicate accepts a request if and only if it has a query string in which the
/// parameter has one of the listed values.
pub proof fn law_query_is_listed(name: String, values: Vec<String>, req: RequestView)
    ensures
        (MatchPredicate::Query { name, values }).accepts(req) <==> (req.query is Some && raw_param(
            req.query->0,
            name@,
        ) is Some && exists|i: int|
            0 <= i < values@.len() && (#[trigger] values@[i])@ == raw_param(req.query->0, name@)->0),
{
}

/// A path predicate accepts a request in whose path one of the expressions is found, and no
/// other. The query string plays no part.
pub proof fn law_path_is_searched(
    patterns: Vec<Pattern>,
    req: RequestView,
    query: Option<Seq<char>>,
)
    ensures
        MatchPredicate::Path(patterns).accepts(req) <==> exists|i: int|
            0 <= i < patterns@.len() && regex_finds((#[trigger] patterns@[i])@, req.path),
        MatchPredicate::Path(patterns).accepts(RequestView { query, ..req })
            == MatchPredicate::Path(patterns).accepts(req),
{
    lemma_path(MatchPredicate::Path(patterns), req);
    lemma_path(MatchPredicate::Path(patterns), RequestView { query, ..req });
}

proof fn lemma_path(p: MatchPredicate, req: RequestView)
    requires
        p is Path,
    ensures
        p.accepts(req) == exists|i: int|
            0 <= i < p->Path_0@.len() && regex_finds((#[trigger] p->Path_0@[i])@, req.path),
{
    match p {
        MatchPredicate::Path(patterns) => {
            if exists|i: int|
                0 <= i < patterns@.len() && regex_finds((#[trigger] patterns@[i])@, req.path) {
                assert(p.accepts(req));
            }
        },
        _ => {},
    }
}

/// All predicates have to accept.
pub proof fn law_all_have_to_accept(ps: Seq<MatchPredicate>, req: RequestView)
    ensures
        all_accept(ps, req) <==> forall|i: int|
            0 <= i < ps.len() ==> (#[trigger] ps[i]).accepts(req),
{
}

} // verus!
