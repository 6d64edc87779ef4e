//! Request matchers of a location: predicates that all have to accept, each
//! over a list of alternatives of which one has to hold.
pub mod laws;

use crate::headers::{first_text, first_value, get_first, has_header, header_values, text_of};
use crate::pattern::{regex_finds, whole, Pattern, WholePattern};
use crate::text::{chars_of, find_char, find_from, parts, same_str, split_on, string_of, views};
use vstd::prelude::*;
use vstd::slice::slice_subrange;

verus! {

/// What a matcher looks at in a request.
pub struct RequestHead {
    pub method: String,
    pub path: String,
    pub query: Option<String>,
    pub headers: hyper::HeaderMap,
}

/// What a matcher looks at in a request, by value.
pub struct RequestView {
    pub method: Seq<char>,
    pub path: Seq<char>,
    pub query: Option<Seq<char>>,
    pub headers: Map<Seq<char>, Seq<Seq<u8>>>,
}

impl View for RequestHead {
    type V = RequestView;

    open spec fn view(&self) -> RequestView {
        RequestView {
            method: self.method@,
            path: self.path@,
            query: match self.query {
                Some(q) => Some(q@),
                None => None,
            },
            headers: header_values(self.headers),
        }
    }
}

/// One alternative for a header value.
pub enum HeaderMatch {
    /// The value is this text.
    Exact(String),
    /// The whole value matches this regular expression.
    Regex(WholePattern),
}

#[allow(inconsistent_fields)]
pub enum MatchPredicate {
    /// The method is one of these.
    Method(Vec<String>),
    /// The first value of the named header is text and satisfies one of these.
    /// A missing header fails.
    Header { name: String, values: Vec<HeaderMatch> },
    /// The named header is missing. An empty value counts as present.
    HeaderAbsent { name: String },
    /// The first occurrence of the named parameter in the raw query string has
    /// one of these values. A missing parameter fails.
    Query { name: String, values: Vec<String> },
    /// The path matches one of these somewhere.
    Path(Vec<Pattern>),
    /// Not all of these accept.
    Not(Vec<MatchPredicate>),
}

/// A list of predicates that all have to accept; an empty list accepts every
/// request.
pub struct Matcher {
    pub predicates: Vec<MatchPredicate>,
}

impl HeaderMatch {
    pub open spec fn allows(self, value: Seq<char>) -> bool {
        match self {
            HeaderMatch::Exact(want) => want@ == value,
            HeaderMatch::Regex(p) => regex_finds(whole(p@), value),
        }
    }

    fn holds(&self, value: &str) -> (r: bool)
        ensures
            r == self.allows(value@),
    {
        match self {
            HeaderMatch::Exact(want) => same_str(want.as_str(), value),
            HeaderMatch::Regex(p) => p.is_match(value),
        }
    }
}

/// The key and value of a query pair: what stands before and behind the first
/// equals sign, with an empty value where there is none.
pub open spec fn key_value(pair: Seq<char>) -> (Seq<char>, Seq<char>) {
    let j = find_from(pair, '=', 0);
    if j >= pair.len() {
        (pair, Seq::empty())
    } else {
        (pair.take(j), pair.skip(j + 1))
    }
}

/// The value of the first pair from `i` on whose key is `name`.
pub open spec fn first_pair(pairs: Seq<Seq<char>>, name: Seq<char>, i: int) -> Option<Seq<char>>
    decreases pairs.len() - i,
{
    if i < 0 || i >= pairs.len() {
        None
    } else if key_value(pairs[i]).0 == name {
        Some(key_value(pairs[i]).1)
    } else {
        first_pair(pairs, name, i + 1)
    }
}

/// The value of the first occurrence of a parameter in a raw query string.
pub open spec fn raw_param(query: Seq<char>, name: Seq<char>) -> Option<Seq<char>> {
    first_pair(parts(query, '&'), name, 0)
}

/// One of the texts is `s`.
pub open spec fn listed(v: Seq<String>, s: Seq<char>) -> bool {
    exists|i: int| 0 <= i < v.len() && (#[trigger] v[i])@ == s
}

impl MatchPredicate {
    /// Whether the predicate accepts a request.
    pub open spec fn accepts(self, req: RequestView) -> bool
        decreases self,
    {
        match self {
            MatchPredicate::Method(methods) => listed(methods@, req.method),
            MatchPredicate::Header { name, values } => match first_text(req.headers, name@) {
                Some(v) => exists|i: int| 0 <= i < values@.len() && (#[trigger] values@[i]).allows(v),
                None => false,
            },
            MatchPredicate::HeaderAbsent { name } => first_value(req.headers, name@) is None,
            MatchPredicate::Query { name, values } => match req.query {
                Some(q) => match raw_param(q, name@) {
                    Some(v) => listed(values@, v),
                    None => false,
                },
                None => false,
            },
            MatchPredicate::Path(patterns) => exists|i: int|
                0 <= i < patterns@.len() && regex_finds((#[trigger] patterns@[i])@, req.path),
            MatchPredicate::Not(inner) => !(forall|i: int|
                0 <= i < inner@.len() ==> (#[trigger] inner@[i]).accepts(req)),
        }
    }
}

/// All predicates of a list accept.
pub open spec fn all_accept(ps: Seq<MatchPredicate>, req: RequestView) -> bool {
    forall|i: int| 0 <= i < ps.len() ==> (#[trigger] ps[i]).accepts(req)
}

fn is_listed(v: &Vec<String>, s: &str) -> (r: bool)
    ensures
        r == listed(v@, s@),
{
    let n: usize = v.len();
    let mut i: usize = 0;
    while i < n
        invariant
            n == v@.len(),
            i <= n,
            forall|j: int| 0 <= j < i ==> (#[trigger] v@[j])@ != s@,
        decreases n - i,
    {
        if same_str(v[i].as_str(), s) {
            return true;
        }
        i = i + 1;
    }
    false
}

/// The value of the first occurrence of a parameter in a raw query string.
pub fn find_param(query: &str, name: &str) -> (r: Option<String>)
    ensures
        match r {
            Some(v) => raw_param(query@, name@) == Some(v@),
            None => raw_param(query@, name@) is None,
        },
{
    let cs = chars_of(query);
    let pairs = split_on(cs.as_slice(), '&');
    let n: usize = pairs.len();
    let mut i: usize = 0;
    while i < n
        invariant
            n == pairs@.len(),
            i <= n,
            views(pairs@) == parts(query@, '&'),
            raw_param(query@, name@) == first_pair(views(pairs@), name@, i as int),
        decreases n - i,
    {
        let pair = pairs[i];
        assert(views(pairs@)[i as int] == pair@);
        let j: usize = find_char(pair, '=', 0);
        let key = slice_subrange(pair, 0, j);
        assert(key@ =~= key_value(pair@).0);
        if same_str(string_of(key).as_str(), name) {
            if j >= pair.len() {
                let v = String::new();
                assert(v@ =~= key_value(pair@).1);
                return Some(v);
            }
            let value = slice_subrange(pair, j + 1, pair.len());
            assert(value@ =~= key_value(pair@).1);
            return Some(string_of(value));
        }
        i = i + 1;
    }
    None
}

fn any_header(values: &Vec<HeaderMatch>, v: &str) -> (r: bool)
    ensures
        r == exists|i: int| 0 <= i < values@.len() && (#[trigger] values@[i]).allows(v@),
{
    let n: usize = values.len();
    let mut i: usize = 0;
    while i < n
        invariant
            n == values@.len(),
            i <= n,
            forall|j: int| 0 <= j < i ==> !(#[trigger] values@[j]).allows(v@),
        decreases n - i,
    {
        if values[i].holds(v) {
            return true;
        }
        i = i + 1;
    }
    false
}

fn any_path(patterns: &Vec<Pattern>, path: &str) -> (r: bool)
    ensures
        r == exists|i: int| 0 <= i < patterns@.len() && regex_finds((#[trigger] patterns@[i])@, path@),
{
    let n: usize = patterns.len();
    let mut i: usize = 0;
    while i < n
        invariant
            n == patterns@.len(),
            i <= n,
            forall|j: int| 0 <= j < i ==> !regex_finds((#[trigger] patterns@[j])@, path@),
        decreases n - i,
    {
        if patterns[i].is_match(path) {
            return true;
        }
        i = i + 1;
    }
    false
}

fn all_match(ps: &Vec<MatchPredicate>, req: &RequestHead) -> (r: bool)
    ensures
        r == all_accept(ps@, req@),
    decreases ps,
{
    let n: usize = ps.len();
    let mut i: usize = 0;
    while i < n
        invariant
            n == ps@.len(),
            i <= n,
            forall|j: int| 0 <= j < i ==> (#[trigger] ps@[j]).accepts(req@),
        decreases n - i,
    {
        proof {
            assert(decreases_to!(ps@ => ps@[i as int]));
        }
        if !ps[i].matches(req) {
            return false;
        }
        i = i + 1;
    }
    true
}

impl MatchPredicate {
    pub fn matches(&self, req: &RequestHead) -> (r: bool)
        ensures
            r == self.accepts(req@),
        decreases self,
    {
        match self {
            MatchPredicate::Method(methods) => is_listed(methods, req.method.as_str()),
            MatchPredicate::Header { name, values } => match get_first(
                &req.headers,
                name.as_str(),
            ) {
                Some(raw) => match text_of(&raw) {
                    Some(v) => any_header(values, v.as_str()),
                    None => false,
                },
                None => false,
            },
            MatchPredicate::HeaderAbsent { name } => !has_header(&req.headers, name.as_str()),
            MatchPredicate::Query { name, values } => match &req.query {
                Some(q) => match find_param(q.as_str(), name.as_str()) {
                    Some(v) => is_listed(values, v.as_str()),
                    None => false,
                },
                None => false,
            },
            MatchPredicate::Path(patterns) => any_path(patterns, req.path.as_str()),
            MatchPredicate::Not(inner) => !all_match(inner, req),
        }
    }
}

impl Matcher {
    /// `true` iff every predicate accepts the request.
    pub fn matches(&self, req: &RequestHead) -> (r: bool)
        ensures
            r == all_accept(self.predicates@, req@),
    {
        all_match(&self.predicates, req)
    }
}

/// A matcher without predicates accepts every request.
pub proof fn law_empty_accepts(req: RequestView)
    ensures
        all_accept(Seq::empty(), req),
{
}

/// One more predicate can only narrow what a matcher accepts.
pub proof fn law_predicates_combine_by_and(
    ps: Seq<MatchPredicate>,
    p: MatchPredicate,
    req: RequestView,
)
    ensures
        all_accept(ps.push(p), req) == (all_accept(ps, req) && p.accepts(req)),
{
    let q = ps.push(p);
    assert(q[ps.len() as int] == p);
    assert forall|i: int| 0 <= i < ps.len() implies q[i] == ps[i] by {}
    if all_accept(q, req) {
        assert forall|i: int| 0 <= i < ps.len() implies (#[trigger] ps[i]).accepts(req) by {
            assert(q[i].accepts(req));
        }
        assert(q[ps.len() as int].accepts(req));
    }
    if all_accept(ps, req) && p.accepts(req) {
        assert forall|i: int| 0 <= i < q.len() implies (#[trigger] q[i]).accepts(req) by {
            if i < ps.len() {
                assert(ps[i].accepts(req));
            }
        }
    }
}

/// One more alternative can only widen what a method predicate accepts.
pub proof fn law_alternatives_combine_by_or(v: Seq<String>, w: String, s: Seq<char>)
    ensures
        listed(v.push(w), s) == (listed(v, s) || w@ == s),
{
    let u = v.push(w);
    assert(u[v.len() as int] == w);
    if listed(v, s) {
        let i = choose|i: int| 0 <= i < v.len() && (#[trigger] v[i])@ == s;
        assert(u[i]@ == s);
    }
    if listed(u, s) {
        let i = choose|i: int| 0 <= i < u.len() && (#[trigger] u[i])@ == s;
        if i < v.len() {
            assert(v[i]@ == s);
        }
    }
}

proof fn lemma_not(p: MatchPredicate, req: RequestView)
    requires
        p is Not,
    ensures
        p.accepts(req) == !all_accept(p->Not_0@, req),
{
    match p {
        MatchPredicate::Not(inner) => {
            if all_accept(inner@, req) {
                assert(!p.accepts(req));
            } else {
                assert(p.accepts(req));
            }
        },
        _ => {},
    }
}

/// A negated group accepts exactly what the group does not accept, so negating
/// it twice accepts what the group accepts.
pub proof fn law_not_inverts(inner: Vec<MatchPredicate>, outer: Vec<MatchPredicate>, req: RequestView)
    requires
        outer@ == seq![MatchPredicate::Not(inner)],
    ensures
        MatchPredicate::Not(inner).accepts(req) == !all_accept(inner@, req),
        MatchPredicate::Not(outer).accepts(req) == all_accept(inner@, req),
{
    assert(outer@[0] == MatchPredicate::Not(inner));
    assert(outer@.len() == 1);
    lemma_not(MatchPredicate::Not(inner), req);
    lemma_not(MatchPredicate::Not(outer), req);
    if outer@[0].accepts(req) {
        assert forall|i: int| 0 <= i < outer@.len() implies (#[trigger] outer@[i]).accepts(
            req,
        ) by {
            assert(i == 0);
        }
    }
}

/// A header that is missing fails every value predicate on it and satisfies
/// the predicate that it be absent.
pub proof fn law_missing_header(name: String, values: Vec<HeaderMatch>, req: RequestView)
    requires
        first_value(req.headers, name@) is None,
    ensures
        !(MatchPredicate::Header { name, values }).accepts(req),
        (MatchPredicate::HeaderAbsent { name }).accepts(req),
{
}

} // verus!
