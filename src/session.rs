//! A conversion session: its own preference store and its active expression.
use vstd::prelude::*;
use crate::braille::{transcribe, transcribed};
use crate::canon::{canon, canon_describes, canon_safe};
use crate::expr::Expr;
use crate::markup::{MarkupError, MarkupNode, element_matches, parse_markup, well_formed};
use crate::prefs::{PrefName, PreferenceError, Preferences, default_value, pref_named, valid_value};
use crate::render::{render, rendered};
use crate::repo::{RepoError, default_style, has_rules, lemma_unregistered_style_falls_back, resolve, resolve_rules, style_named};
use crate::settings::{Style, settings_of, snapshot};
use crate::speech::{Place, RuleError, reading, speak};
use crate::text::{string_chars, to_string};

verus! {

/// Why a conversion failed.
#[derive(Clone, Copy, Debug, PartialEq, Eq, Structural)]
pub enum EngineError {
    Markup(MarkupError),
    UnsupportedLocale,
    NoActiveExpression,
    NoApplicableRule,
}

pub struct Session {
    prefs: Preferences,
    active: Option<Expr>,
}

/// The text spoken for an active expression (if any) under a preference store: the
/// language and style resolve to a rule set, the preferences are read into a snapshot
/// for it, and the expression's reading is rendered.
pub open spec fn speech_of(active: Option<Expr>, prefs: Preferences) -> Result<Seq<char>, EngineError> {
    match active {
        None => Err(EngineError::NoActiveExpression),
        Some(e) => match resolve(prefs.value(PrefName::Language), prefs.value(PrefName::SpeechStyle)) {
            Err(_) => Err(EngineError::UnsupportedLocale),
            Ok(st) => match reading(e, settings_of(prefs, st), Place::Alone) {
                Ok(ts) => Ok(rendered(ts)),
                Err(_) => Err(EngineError::NoApplicableRule),
            },
        },
    }
}

/// The braille for an active expression (if any), under the Nemeth code, with vertical
/// bars read as the vertical-bar preference says.
pub open spec fn braille_of(active: Option<Expr>, prefs: Preferences) -> Result<Seq<char>, EngineError> {
    match active {
        None => Err(EngineError::NoActiveExpression),
        Some(e) => match transcribed(e, settings_of(prefs, Style::ClearSpeak).vertical_line, Seq::empty()) {
            Ok(cells) => Ok(cells),
            Err(_) => Err(EngineError::NoApplicableRule),
        },
    }
}

/// A style that has no rules, asked for with a language that has rules, is spoken
/// exactly as the language's default style is: two stores that differ only in the
/// style, one naming no registered style and the other the default style, give the same
/// text for the same expression, and neither fails for want of a style.
pub proof fn lemma_unregistered_style_speaks_as_default(active: Option<Expr>, p: Preferences, q: Preferences)
    requires
        forall|k: PrefName| k != PrefName::SpeechStyle ==> #[trigger] p.value(k) == q.value(k),
        has_rules(p.value(PrefName::Language)),
        style_named(p.value(PrefName::SpeechStyle)) is None,
        q.value(PrefName::SpeechStyle) == "ClearSpeak"@,
        default_style(p.value(PrefName::Language)) == Style::ClearSpeak,
    ensures
        speech_of(active, p) == speech_of(active, q),
        active is Some ==> !(speech_of(active, p) matches Err(EngineError::UnsupportedLocale)),
{
    let l = p.value(PrefName::Language);
    assert(q.value(PrefName::Language) == l);
    lemma_unregistered_style_falls_back(l, p.value(PrefName::SpeechStyle));
    assert(style_named("ClearSpeak"@) == Some(Style::ClearSpeak));
    assert(resolve(l, q.value(PrefName::SpeechStyle)) == Ok::<Style, RepoError>(Style::ClearSpeak));
    assert(p.value(PrefName::Verbosity) == q.value(PrefName::Verbosity));
    assert(p.value(PrefName::VerticalLine) == q.value(PrefName::VerticalLine));
    assert(p.value(PrefName::Ellipses) == q.value(PrefName::Ellipses));
    assert(p.value(PrefName::MultSymbolX) == q.value(PrefName::MultSymbolX));
    assert(p.value(PrefName::ImpliedTimes) == q.value(PrefName::ImpliedTimes));
    assert(settings_of(p, Style::ClearSpeak) == settings_of(q, Style::ClearSpeak));
}

pub open spec fn text_result(r: Result<String, EngineError>) -> Result<Seq<char>, EngineError> {
    match r {
        Ok(t) => Ok(t@),
        Err(e) => Err(e),
    }
}

/// Speaking is a function of the expression and of the preference values alone: two
/// stores that hold the same values give the same text, byte for byte.
pub proof fn lemma_speech_is_deterministic(active: Option<Expr>, p: Preferences, q: Preferences)
    requires
        forall|k: PrefName| #[trigger] p.value(k) == q.value(k),
    ensures
        speech_of(active, p) == speech_of(active, q),
{
    assert(p.value(PrefName::Language) == q.value(PrefName::Language));
    assert(p.value(PrefName::SpeechStyle) == q.value(PrefName::SpeechStyle));
    assert(p.value(PrefName::Verbosity) == q.value(PrefName::Verbosity));
    assert(p.value(PrefName::VerticalLine) == q.value(PrefName::VerticalLine));
    assert(p.value(PrefName::Ellipses) == q.value(PrefName::Ellipses));
    assert(p.value(PrefName::MultSymbolX) == q.value(PrefName::MultSymbolX));
    assert(p.value(PrefName::ImpliedTimes) == q.value(PrefName::ImpliedTimes));
}

impl Session {
    pub closed spec fn wf(&self) -> bool {
        self.prefs.wf()
    }

    /// Whether an expression has been set successfully.
    pub open spec fn has_expression(&self) -> bool {
        self.expression() is Some
    }

    /// The current value of a preference.
    pub open spec fn preference(&self, p: PrefName) -> Seq<char> {
        self.preferences().value(p)
    }

    /// The active expression, if one has been set.
    pub closed spec fn expression(&self) -> Option<Expr> {
        self.active
    }

    /// The preference store.
    pub closed spec fn preferences(&self) -> Preferences {
        self.prefs
    }

    /// A session with default preferences and no expression.
    pub fn new() -> (r: Session)
        ensures
            r.wf(),
            !r.has_expression(),
            forall|p: PrefName| #[trigger] r.preference(p) == default_value(p),
    {
        Session { prefs: Preferences::new(), active: None }
    }

    /// Sets a preference by name; an unknown name or a value outside the preference's
    /// domain is rejected and changes nothing.
    pub fn set_preference(&mut self, name: String, value: String) -> (r: Result<(), PreferenceError>)
        requires
            old(self).wf(),
        ensures
            final(self).wf(),
            final(self).expression() == old(self).expression(),
            match pref_named(name@) {
                None => r == Err::<(), PreferenceError>(PreferenceError::UnknownPreference)
                    && forall|q: PrefName| #[trigger] final(self).preference(q) == old(self).preference(q),
                Some(p) => if valid_value(p, value@) {
                    &&& r == Ok::<(), PreferenceError>(())
                    &&& final(self).preference(p) == value@
                    &&& forall|q: PrefName| q != p ==> #[trigger] final(self).preference(q) == old(self).preference(q)
                } else {
                    r == Err::<(), PreferenceError>(PreferenceError::InvalidPreference)
                        && forall|q: PrefName| #[trigger] final(self).preference(q) == old(self).preference(q)
                },
            },
    {
        let n = string_chars(&name);
        let v = string_chars(&value);
        self.prefs.set(&n, v)
    }

    /// Reads a preference by name.
    pub fn get_preference(&self, name: String) -> (r: Result<String, PreferenceError>)
        requires
            self.wf(),
        ensures
            match pref_named(name@) {
                Some(p) => r matches Ok(v) && v@ == self.preference(p),
                None => r == Err::<String, PreferenceError>(PreferenceError::UnknownPreference),
            },
    {
        let n = string_chars(&name);
        match self.prefs.get(&n) {
            Ok(v) => Ok(to_string(&v)),
            Err(e) => Err(e),
        }
    }

    /// Parses and canonicalizes markup, which becomes the active expression. On failure
    /// the previous active expression, if any, stays.
    pub fn set_mathml(&mut self, markup: String) -> (r: Result<(), EngineError>)
        requires
            old(self).wf(),
        ensures
            final(self).wf(),
            forall|q: PrefName| #[trigger] final(self).preference(q) == old(self).preference(q),
            r is Ok ==> final(self).has_expression(),
            r is Err ==> final(self).expression() == old(self).expression(),
            r matches Err(e) ==> e is Markup,
            !well_formed(markup@) ==> r == Err::<(), EngineError>(EngineError::Markup(MarkupError::Malformed)),
            well_formed(markup@) && (forall|t: MarkupNode| element_matches(markup@, 0, t) ==> canon_safe(t))
                ==> r is Ok,
            r is Ok ==> exists|t: MarkupNode| #[trigger] element_matches(markup@, 0, t) && canon_describes(
                t,
                Ok(final(self).expression()->Some_0),
            ),
    {
        let s = string_chars(&markup);
        let tree = match parse_markup(&s) {
            Ok(t) => t,
            Err(e) => {
                return Err(EngineError::Markup(e));
            },
        };
        match canon(&tree) {
            Ok(e) => {
                self.active = Some(e);
                assert(element_matches(markup@, 0, tree));
                Ok(())
            },
            Err(e) => Err(EngineError::Markup(e)),
        }
    }

    /// Speaks the active expression under the current preferences.
    pub fn get_spoken_text(&self) -> (r: Result<String, EngineError>)
        requires
            self.wf(),
        ensures
            !self.has_expression() ==> r == Err::<String, EngineError>(EngineError::NoActiveExpression),
            self.has_expression() && resolve(
                self.preference(PrefName::Language),
                self.preference(PrefName::SpeechStyle),
            ) is Err ==> r == Err::<String, EngineError>(EngineError::UnsupportedLocale),
            r matches Err(e) ==> !(e is Markup),
            text_result(r) == speech_of(self.expression(), self.preferences()),
    {
        let e = match &self.active {
            Some(e) => e,
            None => {
                return Err(EngineError::NoActiveExpression);
            },
        };
        let lang = self.prefs.read(PrefName::Language);
        let style = self.prefs.read(PrefName::SpeechStyle);
        let st = match resolve_rules(&lang, &style) {
            Ok(st) => st,
            Err(RepoError::UnsupportedLocale) => {
                return Err(EngineError::UnsupportedLocale);
            },
        };
        let settings = snapshot(&self.prefs, st);
        match speak(e, &settings, Place::Alone) {
            Ok(ts) => Ok(to_string(&render(&ts))),
            Err(RuleError::NoApplicableRule) => Err(EngineError::NoApplicableRule),
        }
    }

    /// Transcribes the active expression into braille under the selected code. The focus
    /// names a sub-expression for navigation; an empty focus means the whole expression,
    /// and the whole expression is what is transcribed.
    pub fn get_braille(&self, focus: String) -> (r: Result<String, EngineError>)
        requires
            self.wf(),
        ensures
            !self.has_expression() ==> r == Err::<String, EngineError>(EngineError::NoActiveExpression),
            text_result(r) == braille_of(self.expression(), self.preferences()),
    {
        let e = match &self.active {
            Some(e) => e,
            None => {
                return Err(EngineError::NoActiveExpression);
            },
        };
        let mut out: Vec<char> = Vec::new();
        assert(out@ =~= Seq::<char>::empty());
        let vl = snapshot(&self.prefs, Style::ClearSpeak).vertical_line;
        match transcribe(e, vl, &mut out) {
            Ok(()) => Ok(to_string(&out)),
            Err(RuleError::NoApplicableRule) => Err(EngineError::NoApplicableRule),
        }
    }
}

} // verus!
