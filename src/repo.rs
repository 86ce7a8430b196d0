//! The rule repository: which (language, style) rule sets exist, and how a request
//! falls back to one of them.
use vstd::prelude::*;
use crate::settings::Style;
use crate::text::{chars_of, eq_str, to_string};

verus! {

#[derive(Clone, Copy, Debug, PartialEq, Eq, Structural)]
pub enum RepoError {
    /// Neither the language nor its base language has rules.
    UnsupportedLocale,
}

/// The index of the first `-` or `_` at or after `i`, or the length.
pub open spec fn separator_index(l: Seq<char>, i: int) -> int
    decreases l.len() - i,
{
    if i >= l.len() {
        l.len() as int
    } else if l[i] == '-' || l[i] == '_' {
        i
    } else {
        separator_index(l, i + 1)
    }
}

/// The language without its region: `nb` for `nb-NO`.
pub open spec fn base_language(l: Seq<char>) -> Seq<char> {
    l.subrange(0, separator_index(l, 0))
}

/// Whether rules are registered for a language.
pub open spec fn has_rules(l: Seq<char>) -> bool {
    l == "nb"@
}

/// Whether a rule set is registered for a language and style.
pub open spec fn registered(l: Seq<char>, st: Style) -> bool {
    has_rules(l)
}

pub open spec fn default_style(l: Seq<char>) -> Style {
    Style::ClearSpeak
}

pub open spec fn style_named(s: Seq<char>) -> Option<Style> {
    if s == "ClearSpeak"@ {
        Some(Style::ClearSpeak)
    } else if s == "SimpleSpeak"@ {
        Some(Style::SimpleSpeak)
    } else {
        None
    }
}

/// The rule set a request resolves to: the exact pair, then the base language with the
/// style, then the language's default style, then the base language's default style.
pub open spec fn resolve(l: Seq<char>, s: Seq<char>) -> Result<Style, RepoError> {
    let b = base_language(l);
    match style_named(s) {
        Some(st) if registered(l, st) => Ok(st),
        Some(st) if registered(b, st) => Ok(st),
        _ => if has_rules(l) {
            Ok(default_style(l))
        } else if has_rules(b) {
            Ok(default_style(b))
        } else {
            Err(RepoError::UnsupportedLocale)
        },
    }
}

proof fn lemma_separator_step(l: Seq<char>, i: int)
    requires
        0 <= i < l.len(),
        l[i] != '-' && l[i] != '_',
    ensures
        separator_index(l, i) == separator_index(l, i + 1),
{
}

pub fn base_language_of(l: &Vec<char>) -> (r: Vec<char>)
    ensures
        r@ == base_language(l@),
{
    let mut r: Vec<char> = Vec::new();
    let mut i: usize = 0;
    while i < l.len() && l[i] != '-' && l[i] != '_'
        invariant
            i <= l@.len(),
            separator_index(l@, 0) == separator_index(l@, i as int),
            r@ == l@.subrange(0, i as int),
        decreases l.len() - i,
    {
        proof {
            lemma_separator_step(l@, i as int);
        }
        r.push(l[i]);
        i = i + 1;
        assert(r@ =~= l@.subrange(0, i as int));
    }
    r
}

fn style_of(s: &Vec<char>) -> (r: Option<Style>)
    ensures
        r == style_named(s@),
{
    if eq_str(s, "ClearSpeak") {
        Some(Style::ClearSpeak)
    } else if eq_str(s, "SimpleSpeak") {
        Some(Style::SimpleSpeak)
    } else {
        None
    }
}

/// Resolves a language and style to a registered rule set.
pub fn resolve_rules(l: &Vec<char>, s: &Vec<char>) -> (r: Result<Style, RepoError>)
    ensures
        r == resolve(l@, s@),
{
    let b = base_language_of(l);
    let lang = eq_str(l, "nb");
    let base = eq_str(&b, "nb");
    match style_of(s) {
        Some(st) => {
            if lang || base {
                return Ok(st);
            }
        },
        None => {},
    }
    if lang || base {
        Ok(Style::ClearSpeak)
    } else {
        Err(RepoError::UnsupportedLocale)
    }
}

/// A style that is not registered, asked for with a language that has rules, resolves
/// to that language's default style.
pub proof fn lemma_unregistered_style_falls_back(l: Seq<char>, s: Seq<char>)
    requires
        has_rules(l),
        style_named(s) is None,
    ensures
        resolve(l, s) == Ok::<Style, RepoError>(default_style(l)),
{
}

/// The languages that have rules.
pub fn get_supported_languages() -> (r: Vec<String>)
    ensures
        r@.len() == 1,
        r@[0]@ == "nb"@,
{
    let mut r: Vec<String> = Vec::new();
    r.push(to_string(&chars_of("nb")));
    r
}

/// The styles registered for a language (after falling back to its base language).
pub fn get_supported_speech_styles(l: &Vec<char>) -> (r: Vec<String>)
    ensures
        (has_rules(l@) || has_rules(base_language(l@))) ==> r@.len() == 2 && r@[0]@
            == "ClearSpeak"@ && r@[1]@ == "SimpleSpeak"@,
        !(has_rules(l@) || has_rules(base_language(l@))) ==> r@.len() == 0,
{
    let mut r: Vec<String> = Vec::new();
    let b = base_language_of(l);
    if eq_str(l, "nb") || eq_str(&b, "nb") {
        r.push(to_string(&chars_of("ClearSpeak")));
        r.push(to_string(&chars_of("SimpleSpeak")));
    }
    r
}

/// The braille codes that have rules.
pub fn get_supported_braille_codes() -> (r: Vec<String>)
    ensures
        r@.len() == 1,
        r@[0]@ == "Nemeth"@,
{
    let mut r: Vec<String> = Vec::new();
    r.push(to_string(&chars_of("Nemeth")));
    r
}

} // verus!
