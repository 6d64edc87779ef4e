//! Claim documents: the members of a JSON object, by way of `serde_json`, and
//! what the sign-in logic reads out of them.
use crate::text::{chars_of, same_str, split_words, string_of, views, words};
use serde_json::Value;
use vstd::prelude::*;

verus! {

/// The value of a claim, as far as the sign-in logic looks at it.
pub enum Claim {
    Null,
    Bool(bool),
    /// A number, as a signed and as an unsigned 64-bit integer where it is one.
    Number(Option<i64>, Option<u64>),
    Text(String),
    /// An array: its items, each where it is a string.
    List(Vec<Option<String>>),
    /// An object: its keys.
    Object(Vec<String>),
}

/// The value of a claim, by value.
pub enum ClaimView {
    Null,
    Bool(bool),
    Number(Option<i64>, Option<u64>),
    Text(Seq<char>),
    List(Seq<Option<Seq<char>>>),
    Object(Seq<Seq<char>>),
}

/// The texts of a list of strings.
pub open spec fn texts(v: Seq<String>) -> Seq<Seq<char>> {
    Seq::new(v.len(), |i: int| v[i]@)
}

/// The text of an optional string.
pub open spec fn text_opt(s: Option<String>) -> Option<Seq<char>> {
    match s {
        Some(t) => Some(t@),
        None => None,
    }
}

impl View for Claim {
    type V = ClaimView;

    open spec fn view(&self) -> ClaimView {
        match self {
            Claim::Null => ClaimView::Null,
            Claim::Bool(b) => ClaimView::Bool(*b),
            Claim::Number(i, u) => ClaimView::Number(*i, *u),
            Claim::Text(s) => ClaimView::Text(s@),
            Claim::List(v) => ClaimView::List(Seq::new(v@.len(), |i: int| text_opt(v@[i]))),
            Claim::Object(v) => ClaimView::Object(texts(v@)),
        }
    }
}

/// The members of a claim document.
pub struct Claims {
    pub members: Vec<(String, Claim)>,
}

/// A claim document, by value.
pub type ClaimsView = Seq<(Seq<char>, ClaimView)>;

impl View for Claims {
    type V = ClaimsView;

    open spec fn view(&self) -> ClaimsView {
        Seq::new(self.members@.len(), |i: int| (self.members@[i].0@, self.members@[i].1@))
    }
}

/// What `serde_json` reads a document as: nothing where it is no JSON, the
/// members of its object, and no members where it is JSON but no object.
pub uninterp spec fn json_members(doc: Seq<u8>) -> Option<Seq<(Seq<char>, ClaimView)>>;

/// `serde_json::from_slice`: reads a JSON document. What is JSON and what it
/// denotes is left as a name.
#[verifier::external_body]
fn read_members(doc: &[u8]) -> (r: Option<Claims>)
    ensures
        match r {
            Some(c) => json_members(doc@) == Some(c@),
            None => json_members(doc@) is None,
        },
{
    let doc: Value = serde_json::from_slice(doc).ok()?;
    let members = doc.as_object().cloned().unwrap_or_default();
    Some(Claims { members: members.into_iter().map(|(k, v)| (k, match v {
        Value::Null => Claim::Null,
        Value::Bool(b) => Claim::Bool(b),
        Value::Number(n) => Claim::Number(n.as_i64(), n.as_u64()),
        Value::String(s) => Claim::Text(s),
        Value::Array(a) => Claim::List(a.iter().map(|e| e.as_str().map(String::from)).collect()),
        Value::Object(o) => Claim::Object(o.keys().cloned().collect()),
    })).collect() })
}

/// The first member from `i` on under a name.
pub open spec fn member_from(c: ClaimsView, name: Seq<char>, i: int) -> Option<ClaimView>
    decreases c.len() - i,
{
    if i < 0 || i >= c.len() {
        None
    } else if c[i].0 == name {
        Some(c[i].1)
    } else {
        member_from(c, name, i + 1)
    }
}

/// The member under a name.
pub open spec fn member(c: ClaimsView, name: Seq<char>) -> Option<ClaimView> {
    member_from(c, name, 0)
}

/// The text of a claim, where it is text.
pub open spec fn text_claim(c: ClaimsView, name: Seq<char>) -> Option<Seq<char>> {
    match member(c, name) {
        Some(ClaimView::Text(s)) => Some(s),
        _ => None,
    }
}

/// A claim as a signed 64-bit integer, where it is one.
pub open spec fn i64_claim(c: ClaimsView, name: Seq<char>) -> Option<i64> {
    match member(c, name) {
        Some(ClaimView::Number(i, _)) => i,
        _ => None,
    }
}

/// A claim as an unsigned 64-bit integer, where it is one.
pub open spec fn u64_claim(c: ClaimsView, name: Seq<char>) -> Option<u64> {
    match member(c, name) {
        Some(ClaimView::Number(_, u)) => u,
        _ => None,
    }
}

impl Claims {
    /// Reads a claim document.
    pub fn parse(doc: &[u8]) -> (r: Option<Claims>)
        ensures
            match r {
                Some(c) => json_members(doc@) == Some(c@),
                None => json_members(doc@) is None,
            },
    {
        read_members(doc)
    }

    /// The member under a name.
    pub fn get(&self, name: &str) -> (r: Option<&Claim>)
        ensures
            match r {
                Some(v) => member(self@, name@) == Some(v@),
                None => member(self@, name@) is None,
            },
    {
        let n: usize = self.members.len();
        let mut i: usize = 0;
        while i < n
            invariant
                n == self.members@.len(),
                i <= n,
                member(self@, name@) == member_from(self@, name@, i as int),
            decreases n - i,
        {
            assert(self@[i as int] == (self.members@[i as int].0@, self.members@[i as int].1@));
            if same_str(self.members[i].0.as_str(), name) {
                return Some(&self.members[i].1);
            }
            i = i + 1;
        }
        None
    }

    /// The text of a claim, where it is text.
    pub fn text(&self, name: &str) -> (r: Option<String>)
        ensures
            match r {
                Some(s) => text_claim(self@, name@) == Some(s@),
                None => text_claim(self@, name@) is None,
            },
    {
        match self.get(name) {
            Some(Claim::Text(s)) => Some(s.clone()),
            _ => None,
        }
    }

    /// A claim as a signed 64-bit integer, where it is one.
    pub fn as_i64(&self, name: &str) -> (r: Option<i64>)
        ensures
            r == i64_claim(self@, name@),
    {
        match self.get(name) {
            Some(Claim::Number(i, _)) => *i,
            _ => None,
        }
    }

    /// A claim as an unsigned 64-bit integer, where it is one.
    pub fn as_u64(&self, name: &str) -> (r: Option<u64>)
        ensures
            r == u64_claim(self@, name@),
    {
        match self.get(name) {
            Some(Claim::Number(_, u)) => *u,
            _ => None,
        }
    }
}

/// The text of a claim, where it is text and not empty.
pub open spec fn filled_claim(c: ClaimsView, name: Seq<char>) -> Option<Seq<char>> {
    match text_claim(c, name) {
        Some(s) => if s.len() > 0 {
            Some(s)
        } else {
            None
        },
        None => None,
    }
}

/// Reads a claim that is text and not empty.
pub fn extract_optional_string_claim(name: &str, claims: &Claims) -> (r: Option<String>)
    ensures
        match r {
            Some(s) => filled_claim(claims@, name@) == Some(s@),
            None => filled_claim(claims@, name@) is None,
        },
{
    match claims.text(name) {
        Some(s) => if s.as_str().is_empty() {
            None
        } else {
            Some(s)
        },
        None => None,
    }
}

/// The text of a claim, or a default where it is missing, no text or empty.
pub open spec fn claim_or(c: ClaimsView, name: Seq<char>, default: Seq<char>) -> Seq<char> {
    match filled_claim(c, name) {
        Some(s) => s,
        None => default,
    }
}

/// Reads a claim, or a default where it is missing, no text or empty.
pub fn extract_string_claim(name: &str, claims: &Claims, default: &str) -> (r: String)
    ensures
        r@ == claim_or(claims@, name@, default@),
{
    match extract_optional_string_claim(name, claims) {
        Some(s) => s,
        None => default.to_owned(),
    }
}

/// The items of a list that are strings and not empty.
pub open spec fn filled_items(v: Seq<Option<Seq<char>>>) -> Seq<Seq<char>>
    decreases v.len(),
{
    if v.len() == 0 {
        Seq::empty()
    } else {
        match v.last() {
            Some(s) => if s.len() > 0 {
                filled_items(v.drop_last()).push(s)
            } else {
                filled_items(v.drop_last())
            },
            None => filled_items(v.drop_last()),
        }
    }
}

/// The groups that a claim lists: the strings of an array, empty ones left
/// out, or the words of a text.
pub open spec fn groups_in(v: ClaimView) -> Seq<Seq<char>> {
    match v {
        ClaimView::List(items) => filled_items(items),
        ClaimView::Text(s) => words(s),
        _ => Seq::empty(),
    }
}

/// The groups that a claim document lists under a name.
pub open spec fn groups_of(c: ClaimsView, name: Seq<char>) -> Seq<Seq<char>> {
    match member(c, name) {
        Some(v) => groups_in(v),
        None => Seq::empty(),
    }
}

fn groups_from_list(items: &Vec<Option<String>>) -> (r: Vec<String>)
    ensures
        texts(r@) == filled_items(Seq::new(items@.len(), |i: int| text_opt(items@[i]))),
{
    let n: usize = items.len();
    let ghost v = Seq::new(items@.len(), |i: int| text_opt(items@[i]));
    let mut out: Vec<String> = Vec::new();
    let mut i: usize = 0;
    assert(texts(out@) =~= filled_items(v.take(0)));
    while i < n
        invariant
            n == items@.len(),
            i <= n,
            v == Seq::new(items@.len(), |i: int| text_opt(items@[i])),
            texts(out@) == filled_items(v.take(i as int)),
        decreases n - i,
    {
        let ghost before = out@;
        assert(v.take(i + 1).drop_last() =~= v.take(i as int));
        assert(v.take(i + 1).last() == text_opt(items@[i as int]));
        match &items[i] {
            Some(s) => {
                if !s.as_str().is_empty() {
                    out.push(s.clone());
                    assert(texts(out@) =~= texts(before).push(s@));
                }
            },
            None => {},
        }
        i = i + 1;
    }
    assert(v.take(n as int) =~= v);
    out
}

fn groups_from_text(s: &str) -> (r: Vec<String>)
    ensures
        texts(r@) == words(s@),
{
    let cs = chars_of(s);
    let w = split_words(cs.as_slice());
    let n: usize = w.len();
    let mut out: Vec<String> = Vec::new();
    let mut i: usize = 0;
    while i < n
        invariant
            n == w@.len(),
            i <= n,
            out@.len() == i,
            forall|j: int| 0 <= j < i ==> (#[trigger] out@[j])@ == w@[j]@,
        decreases n - i,
    {
        out.push(string_of(w[i]));
        i = i + 1;
    }
    assert(texts(out@) =~= views(w@));
    out
}

/// Reads the groups that a claim document lists under a name.
pub fn extract_groups_claim_from_json(name: &str, claims: &Claims) -> (r: Vec<String>)
    ensures
        texts(r@) == groups_of(claims@, name@),
{
    match claims.get(name) {
        Some(Claim::List(items)) => groups_from_list(items),
        Some(Claim::Text(s)) => groups_from_text(s.as_str()),
        _ => {
            let out: Vec<String> = Vec::new();
            assert(texts(out@) =~= Seq::empty());
            out
        },
    }
}

/// Reads the groups of an ID token.
pub fn extract_groups_claim(name: &str, claims: &Claims) -> (r: Vec<String>)
    ensures
        texts(r@) == groups_of(claims@, name@),
{
    extract_groups_claim_from_json(name, claims)
}

/// No group is ever empty text.
pub proof fn law_groups_are_filled(v: Seq<Option<Seq<char>>>)
    ensures
        forall|i: int| 0 <= i < filled_items(v).len() ==> (#[trigger] filled_items(v)[i]).len() > 0,
    decreases v.len(),
{
    if v.len() > 0 {
        let f = filled_items(v.drop_last());
        law_groups_are_filled(v.drop_last());
        assert forall|i: int| 0 <= i < filled_items(v).len() implies (#[trigger] filled_items(
            v,
        )[i]).len() > 0 by {
            if i < f.len() {
                assert(filled_items(v)[i] == f[i]);
            }
        }
    }
}

} // verus!
