//! Regular expressions, by way of the `regex` crate.
use vstd::prelude::*;

verus! {

#[verifier::external_type_specification]
#[verifier::external_body]
pub struct ExRegex(regex::Regex);

/// Whether `regex::Regex::new` accepts a pattern.
pub uninterp spec fn regex_compiles(pattern: Seq<char>) -> bool;

/// Whether `regex::Regex::is_match` finds a pattern somewhere in a text.
pub uninterp spec fn regex_finds(pattern: Seq<char>, text: Seq<char>) -> bool;

/// A compiled regular expression together with its source text. The two belong
/// together: a value of this type is only ever made by compiling its source.
pub struct Pattern {
    source: String,
    compiled: regex::Regex,
}

impl View for Pattern {
    type V = Seq<char>;

    /// The source text of the pattern.
    closed spec fn view(&self) -> Seq<char> {
        self.source@
    }
}

/// `regex::Regex::new`: compiles a pattern, or refuses it. Which texts are
/// patterns is the crate's grammar and is left as a name.
#[verifier::external_body]
fn compile(source: &str) -> (r: Option<Pattern>)
    ensures
        r is Some == regex_compiles(source@),
        r matches Some(p) ==> p@ == source@,
{
    match regex::Regex::new(source) {
        Ok(compiled) => Some(Pattern { source: source.to_string(), compiled }),
        Err(_) => None,
    }
}

/// `regex::Regex::is_match`: whether the pattern is found anywhere in the text.
/// The answer depends on the pattern's source and the text alone.
#[verifier::external_body]
fn search(pattern: &Pattern, text: &str) -> (r: bool)
    ensures
        r == regex_finds(pattern@, text@),
{
    pattern.compiled.is_match(text)
}

impl Pattern {
    /// Compiles a pattern.
    pub fn new(source: &str) -> (r: Option<Pattern>)
        ensures
            r is Some == regex_compiles(source@),
            r matches Some(p) ==> p@ == source@,
    {
        compile(source)
    }

    /// Whether the pattern is found anywhere in the text.
    pub fn is_match(&self, text: &str) -> (r: bool)
        ensures
            r == regex_finds(self@, text@),
    {
        search(self, text)
    }
}

/// A pattern between anchors, with something behind it.
pub open spec fn between_anchors(pattern: Seq<char>, tail: Seq<char>) -> Seq<char> {
    "^(?:"@ + pattern + tail + ")$"@
}

/// The pattern that finds a text only as a whole: the pattern between anchors. A line
/// break closes a comment at its end, where the anchor behind it would be part of
/// that.
pub open spec fn whole(pattern: Seq<char>) -> Seq<char> {
    if regex_compiles(between_anchors(pattern, ""@)) {
        between_anchors(pattern, ""@)
    } else {
        between_anchors(pattern, "\n"@)
    }
}

fn anchored(source: &str, tail: &str) -> (r: Option<Pattern>)
    ensures
        r is Some == regex_compiles(between_anchors(source@, tail@)),
        r matches Some(p) ==> p@ == between_anchors(source@, tail@),
{
    let mut text = String::new();
    text.append("^(?:");
    text.append(source);
    text.append(tail);
    text.append(")$");
    assert(text@ =~= between_anchors(source@, tail@));
    Pattern::new(text.as_str())
}

/// A regular expression that has to match a whole text.
pub struct WholePattern {
    inner: Pattern,
    source: String,
}

impl View for WholePattern {
    type V = Seq<char>;

    /// The source text as it was given, without anchors.
    closed spec fn view(&self) -> Seq<char> {
        self.source@
    }
}

impl WholePattern {
    #[verifier::type_invariant]
    spec fn inv(&self) -> bool {
        self.inner@ == whole(self.source@)
    }

    /// Compiles a pattern that has to match whole texts.
    pub fn new(source: &str) -> (r: Option<WholePattern>)
        ensures
            r is Some == (regex_compiles(source@) && regex_compiles(whole(source@))),
            r matches Some(p) ==> p@ == source@,
    {
        match Pattern::new(source) {
            Some(_) => {
                let plain = anchored(source, "");
                let inner = if plain.is_some() {
                    plain
                } else {
                    anchored(source, "\n")
                };
                match inner {
                    Some(inner) => Some(WholePattern { inner, source: source.to_owned() }),
                    None => None,
                }
            },
            None => None,
        }
    }

    /// Whether the pattern matches the whole text.
    pub fn is_match(&self, text: &str) -> (r: bool)
        ensures
            r == regex_finds(whole(self@), text@),
    {
        proof {
            use_type_invariant(self);
        }
        self.inner.is_match(text)
    }
}

/// An expression that has to cover a text stands between anchors, and in front of a line end
/// where it cannot stand there otherwise.
pub proof fn law_expression_between_anchors(pattern: Seq<char>)
    ensures
        regex_compiles("^(?:"@ + pattern + ")$"@) ==> whole(pattern) == "^(?:"@ + pattern + ")$"@,
        !regex_compiles("^(?:"@ + pattern + ")$"@) ==> whole(pattern) == "^(?:"@ + pattern
            + "\n)$"@,
{
    reveal_strlit("");
    reveal_strlit("\n");
    reveal_strlit(")$");
    reveal_strlit("\n)$");
    assert(between_anchors(pattern, ""@) =~= "^(?:"@ + pattern + ")$"@);
    assert(between_anchors(pattern, "\n"@) =~= "^(?:"@ + pattern + "\n)$"@);
}

} // verus!
