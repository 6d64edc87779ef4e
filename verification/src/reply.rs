//! Replies to requests, before they are put on the wire.
use crate::decimal::{decimal, decimal_string};
use crate::text::{lower, same_ignoring_case};
use vstd::prelude::*;

verus! {

/// What a reply carries.
pub enum ReplyBody {
    Empty,
    /// The page that is shown for the status.
    Page,
    Text(String),
}

/// What a reply carries, by value.
pub enum BodyView {
    Empty,
    Page,
    Text(Seq<char>),
}

/// A reply: its status, its headers in order, and what it carries.
pub struct Reply {
    pub status: u16,
    pub headers: Vec<(String, String)>,
    pub body: ReplyBody,
}

/// A reply, by value.
pub struct ReplyView {
    pub status: u16,
    pub headers: Seq<(Seq<char>, Seq<char>)>,
    pub body: BodyView,
}

/// Headers, by value.
pub open spec fn header_pairs(v: Seq<(String, String)>) -> Seq<(Seq<char>, Seq<char>)> {
    Seq::new(v.len(), |i: int| (v[i].0@, v[i].1@))
}

impl View for ReplyBody {
    type V = BodyView;

    open spec fn view(&self) -> BodyView {
        match self {
            ReplyBody::Empty => BodyView::Empty,
            ReplyBody::Page => BodyView::Page,
            ReplyBody::Text(s) => BodyView::Text(s@),
        }
    }
}

impl View for Reply {
    type V = ReplyView;

    open spec fn view(&self) -> ReplyView {
        ReplyView {
            status: self.status,
            headers: header_pairs(self.headers@),
            body: self.body@,
        }
    }
}

/// The reply that shows the page of a status.
pub open spec fn page(status: u16) -> ReplyView {
    ReplyView { status, headers: Seq::empty(), body: BodyView::Page }
}

/// A reply without a body that sends the browser elsewhere.
pub open spec fn found(to: Seq<char>) -> ReplyView {
    ReplyView { status: 302, headers: seq![("Location"@, to)], body: BodyView::Empty }
}

/// A reply with one more header.
pub open spec fn plus_header(r: ReplyView, name: Seq<char>, value: Seq<char>) -> ReplyView {
    ReplyView { headers: r.headers.push((name, value)), ..r }
}

/// The reply of a service that is not ready: to be asked again later.
pub open spec fn unavailable(secs: u64) -> ReplyView {
    plus_header(page(503), "Retry-After"@, decimal(secs as nat))
}

/// The first header from `i` on under a name, whose letters' case does not
/// matter.
pub open spec fn header_from(h: Seq<(Seq<char>, Seq<char>)>, name: Seq<char>, i: int) -> Option<
    Seq<char>,
>
    decreases h.len() - i,
{
    if i < 0 || i >= h.len() {
        None
    } else if lower(h[i].0) == lower(name) {
        Some(h[i].1)
    } else {
        header_from(h, name, i + 1)
    }
}

impl Reply {
    /// A reply without headers.
    pub fn new(status: u16, body: ReplyBody) -> (r: Reply)
        ensures
            r@ == (ReplyView { status, headers: Seq::empty(), body: body@ }),
    {
        let r = Reply { status, headers: Vec::new(), body };
        assert(r@.headers =~= Seq::empty());
        r
    }

    /// Adds a header behind the others.
    pub fn push_header(&mut self, name: &str, value: String)
        ensures
            final(self)@ == plus_header(old(self)@, name@, value@),
    {
        self.headers.push((name.to_owned(), value));
        assert(self@.headers =~= old(self)@.headers.push((name@, value@)));
    }

    /// The value of a header.
    pub fn header(&self, name: &str) -> (r: Option<&str>)
        ensures
            match r {
                Some(v) => header_from(self@.headers, name@, 0) == Some(v@),
                None => header_from(self@.headers, name@, 0) is None,
            },
    {
        let n: usize = self.headers.len();
        let mut i: usize = 0;
        while i < n
            invariant
                n == self.headers@.len(),
                i <= n,
                header_from(self@.headers, name@, 0) == header_from(
                    self@.headers,
                    name@,
                    i as int,
                ),
            decreases n - i,
        {
            assert(self@.headers[i as int] == (
                self.headers@[i as int].0@,
                self.headers@[i as int].1@,
            ));
            if same_ignoring_case(self.headers[i].0.as_str(), name) {
                return Some(self.headers[i].1.as_str());
            }
            i = i + 1;
        }
        None
    }
}

/// The reply that shows the page of a status.
pub fn response_status(status: u16) -> (r: Reply)
    ensures
        r@ == page(status),
{
    Reply::new(status, ReplyBody::Page)
}

/// The reply to a request that makes no sense.
pub fn response_400() -> (r: Reply)
    ensures
        r@ == page(400),
{
    response_status(400)
}

/// The reply of a service that is not ready: to be asked again after some
/// seconds.
pub fn response_503_retry(secs: u64) -> (r: Reply)
    ensures
        r@ == unavailable(secs),
{
    let mut r = response_status(503);
    r.push_header("Retry-After", decimal_string(secs));
    r
}

/// A reply without a body that sends the browser elsewhere.
pub fn response_found(to: String) -> (r: Reply)
    ensures
        r@ == found(to@),
{
    let mut r = Reply::new(302, ReplyBody::Empty);
    r.push_header("Location", to);
    assert(r@.headers =~= seq![("Location"@, to@)]);
    r
}

/// A reply by what it holds.
pub proof fn law_reply_by_value(r: Reply, i: int, s: String)
    ensures
        r@.status == r.status,
        r@.body == r.body@,
        r@.headers.len() == r.headers@.len(),
        0 <= i < r.headers@.len() ==> r@.headers[i] == (r.headers@[i].0@, r.headers@[i].1@),
        ReplyBody::Empty@ is Empty,
        ReplyBody::Page@ is Page,
        ReplyBody::Text(s)@ == BodyView::Text(s@),
{
}

/// A header of a reply is the first of its name, in letters of any case.
pub proof fn law_header_of_a_reply(h: Seq<(Seq<char>, Seq<char>)>, name: Seq<char>, i: int)
    ensures
        0 <= i < h.len() && lower(h[i].0) == lower(name) && (forall|j: int|
            0 <= j < i ==> lower((#[trigger] h[j]).0) != lower(name)) ==> header_from(h, name, 0)
            == Some(h[i].1),
        (forall|j: int| 0 <= j < h.len() ==> lower((#[trigger] h[j]).0) != lower(name))
            ==> header_from(h, name, 0) is None,
{
    if 0 <= i < h.len() && lower(h[i].0) == lower(name) && (forall|j: int|
        0 <= j < i ==> lower((#[trigger] h[j]).0) != lower(name)) {
        lemma_header_from(h, name, 0, i);
    }
    if forall|j: int| 0 <= j < h.len() ==> lower((#[trigger] h[j]).0) != lower(name) {
        lemma_header_from(h, name, 0, h.len() as int);
    }
}

proof fn lemma_header_from(h: Seq<(Seq<char>, Seq<char>)>, name: Seq<char>, k: int, i: int)
    requires
        0 <= k <= i <= h.len(),
        i < h.len() ==> lower(h[i].0) == lower(name),
        forall|j: int| 0 <= j < i ==> lower((#[trigger] h[j]).0) != lower(name),
    ensures
        header_from(h, name, k) == if i < h.len() {
            Some(h[i].1)
        } else {
            None
        },
    decreases i - k,
{
    if k < i {
        assert(lower(h[k].0) != lower(name));
        lemma_header_from(h, name, k + 1, i);
    }
}

} // verus!
