//! The optional parameters of a login request.
use crate::oidc::claims::text_opt;
use vstd::prelude::*;

verus! {

/// What a login may hint at to the provider.
pub struct IdpHints {
    /// Who is about to log in.
    pub login_hint: Option<String>,
    /// Whether to ask again, or to ask for consent.
    pub prompt: Option<String>,
    /// How long ago the last authentication may be, in seconds.
    pub max_age: Option<String>,
    /// Which assurance levels are asked for.
    pub acr_values: Option<String>,
    /// Preferred languages.
    pub ui_locales: Option<String>,
}

/// The parameters, by value.
pub struct HintsView {
    pub login_hint: Option<Seq<char>>,
    pub prompt: Option<Seq<char>>,
    pub max_age: Option<Seq<char>>,
    pub acr_values: Option<Seq<char>>,
    pub ui_locales: Option<Seq<char>>,
}

impl View for IdpHints {
    type V = HintsView;

    open spec fn view(&self) -> HintsView {
        HintsView {
            login_hint: text_opt(self.login_hint),
            prompt: text_opt(self.prompt),
            max_age: text_opt(self.max_age),
            acr_values: text_opt(self.acr_values),
            ui_locales: text_opt(self.ui_locales),
        }
    }
}

/// No parameter at all.
pub open spec fn no_hints() -> HintsView {
    HintsView { login_hint: None, prompt: None, max_age: None, acr_values: None, ui_locales: None }
}

impl Default for IdpHints {
    fn default() -> (r: Self)
        ensures
            r@ == no_hints(),
    {
        IdpHints { login_hint: None, prompt: None, max_age: None, acr_values: None, ui_locales: None }
    }
}

/// A parameter, where it has a value.
pub open spec fn pair(name: Seq<char>, value: Option<Seq<char>>) -> Seq<(Seq<char>, Seq<char>)> {
    match value {
        Some(v) => seq![(name, v)],
        None => Seq::empty(),
    }
}

/// The parameters that have a value, in a fixed order.
pub open spec fn hint_pairs(h: HintsView) -> Seq<(Seq<char>, Seq<char>)> {
    pair("login_hint"@, h.login_hint) + pair("prompt"@, h.prompt) + pair("max_age"@, h.max_age)
        + pair("acr_values"@, h.acr_values) + pair("ui_locales"@, h.ui_locales)
}

/// A list of parameters, by value.
pub open spec fn str_pairs(v: Seq<(&str, &str)>) -> Seq<(Seq<char>, Seq<char>)> {
    Seq::new(v.len(), |i: int| (v[i].0@, v[i].1@))
}

fn push_pair<'a>(out: &mut Vec<(&'static str, &'a str)>, name: &'static str, value: &'a Option<String>)
    ensures
        str_pairs(final(out)@) == str_pairs(old(out)@) + pair(name@, text_opt(*value)),
{
    let ghost before = out@;
    match value {
        Some(v) => {
            out.push((name, v.as_str()));
        },
        None => {},
    }
    assert(str_pairs(out@) =~= str_pairs(before) + pair(name@, text_opt(*value)));
}

impl IdpHints {
    /// The parameters that have a value, in a fixed order.
    pub fn pairs(&self) -> (r: Vec<(&'static str, &str)>)
        ensures
            str_pairs(r@) == hint_pairs(self@),
    {
        let mut out: Vec<(&'static str, &str)> = Vec::new();
        assert(str_pairs(out@) =~= Seq::empty());
        push_pair(&mut out, "login_hint", &self.login_hint);
        push_pair(&mut out, "prompt", &self.prompt);
        push_pair(&mut out, "max_age", &self.max_age);
        push_pair(&mut out, "acr_values", &self.acr_values);
        push_pair(&mut out, "ui_locales", &self.ui_locales);
        assert(str_pairs(out@) =~= hint_pairs(self@));
        out
    }
}

} // verus!
