//! The preference store: named settings, each with a declared domain and a default.
use vstd::prelude::*;
use crate::text::{chars_of, eq_str};

verus! {

/// The preferences the engine knows.
#[derive(Clone, Copy, Debug, PartialEq, Eq, Structural)]
pub enum PrefName {
    Language,
    SpeechStyle,
    Verbosity,
    VerticalLine,
    Ellipses,
    MultSymbolX,
    ImpliedTimes,
    Impairment,
    BrailleCode,
    DecimalSeparator,
    DecimalSeparators,
    BlockSeparators,
    Tts,
    NavVerbosity,
    NavMode,
    CapitalLetters,
    MathRate,
    CapitalLettersBeep,
    IntentErrorRecovery,
    Bookmark,
}

/// Why a preference could not be read or written.
#[derive(Clone, Copy, Debug, PartialEq, Eq, Structural)]
pub enum PreferenceError {
    UnknownPreference,
    InvalidPreference,
}

pub const PREF_COUNT: usize = 20;

/// The position of a preference's value in the store.
pub open spec fn slot(p: PrefName) -> nat {
    match p {
        PrefName::Language => 0,
        PrefName::SpeechStyle => 1,
        PrefName::Verbosity => 2,
        PrefName::VerticalLine => 3,
        PrefName::Ellipses => 4,
        PrefName::MultSymbolX => 5,
        PrefName::ImpliedTimes => 6,
        PrefName::Impairment => 7,
        PrefName::BrailleCode => 8,
        PrefName::DecimalSeparator => 9,
        PrefName::DecimalSeparators => 10,
        PrefName::BlockSeparators => 11,
        PrefName::Tts => 12,
        PrefName::NavVerbosity => 13,
        PrefName::NavMode => 14,
        PrefName::CapitalLetters => 15,
        PrefName::MathRate => 16,
        PrefName::CapitalLettersBeep => 17,
        PrefName::IntentErrorRecovery => 18,
        PrefName::Bookmark => 19,
    }
}

pub fn slot_of(p: PrefName) -> (r: usize)
    ensures
        r == slot(p),
        r < PREF_COUNT,
{
    match p {
        PrefName::Language => 0,
        PrefName::SpeechStyle => 1,
        PrefName::Verbosity => 2,
        PrefName::VerticalLine => 3,
        PrefName::Ellipses => 4,
        PrefName::MultSymbolX => 5,
        PrefName::ImpliedTimes => 6,
        PrefName::Impairment => 7,
        PrefName::BrailleCode => 8,
        PrefName::DecimalSeparator => 9,
        PrefName::DecimalSeparators => 10,
        PrefName::BlockSeparators => 11,
        PrefName::Tts => 12,
        PrefName::NavVerbosity => 13,
        PrefName::NavMode => 14,
        PrefName::CapitalLetters => 15,
        PrefName::MathRate => 16,
        PrefName::CapitalLettersBeep => 17,
        PrefName::IntentErrorRecovery => 18,
        PrefName::Bookmark => 19,
    }
}

/// The preference a name denotes, if any.
pub open spec fn pref_named(s: Seq<char>) -> Option<PrefName> {
    if s == "Language"@ {
        Some(PrefName::Language)
    } else if s == "SpeechStyle"@ {
        Some(PrefName::SpeechStyle)
    } else if s == "Verbosity"@ {
        Some(PrefName::Verbosity)
    } else if s == "ClearSpeak_VerticalLine"@ {
        Some(PrefName::VerticalLine)
    } else if s == "ClearSpeak_Ellipses"@ {
        Some(PrefName::Ellipses)
    } else if s == "ClearSpeak_MultSymbolX"@ {
        Some(PrefName::MultSymbolX)
    } else if s == "ClearSpeak_ImpliedTimes"@ {
        Some(PrefName::ImpliedTimes)
    } else if s == "Impairment"@ {
        Some(PrefName::Impairment)
    } else if s == "BrailleCode"@ {
        Some(PrefName::BrailleCode)
    } else if s == "DecimalSeparator"@ {
        Some(PrefName::DecimalSeparator)
    } else if s == "DecimalSeparators"@ {
        Some(PrefName::DecimalSeparators)
    } else if s == "BlockSeparators"@ {
        Some(PrefName::BlockSeparators)
    } else if s == "TTS"@ {
        Some(PrefName::Tts)
    } else if s == "NavVerbosity"@ {
        Some(PrefName::NavVerbosity)
    } else if s == "NavMode"@ {
        Some(PrefName::NavMode)
    } else if s == "SpeechOverrides_CapitalLetters"@ {
        Some(PrefName::CapitalLetters)
    } else if s == "MathRate"@ {
        Some(PrefName::MathRate)
    } else if s == "CapitalLetters_Beep"@ {
        Some(PrefName::CapitalLettersBeep)
    } else if s == "IntentErrorRecovery"@ {
        Some(PrefName::IntentErrorRecovery)
    } else if s == "Bookmark"@ {
        Some(PrefName::Bookmark)
    } else {
        None
    }
}

pub fn pref_of_name(s: &Vec<char>) -> (r: Option<PrefName>)
    ensures
        r == pref_named(s@),
{
    if eq_str(s, "Language") {
        Some(PrefName::Language)
    } else if eq_str(s, "SpeechStyle") {
        Some(PrefName::SpeechStyle)
    } else if eq_str(s, "Verbosity") {
        Some(PrefName::Verbosity)
    } else if eq_str(s, "ClearSpeak_VerticalLine") {
        Some(PrefName::VerticalLine)
    } else if eq_str(s, "ClearSpeak_Ellipses") {
        Some(PrefName::Ellipses)
    } else if eq_str(s, "ClearSpeak_MultSymbolX") {
        Some(PrefName::MultSymbolX)
    } else if eq_str(s, "ClearSpeak_ImpliedTimes") {
        Some(PrefName::ImpliedTimes)
    } else if eq_str(s, "Impairment") {
        Some(PrefName::Impairment)
    } else if eq_str(s, "BrailleCode") {
        Some(PrefName::BrailleCode)
    } else if eq_str(s, "DecimalSeparator") {
        Some(PrefName::DecimalSeparator)
    } else if eq_str(s, "DecimalSeparators") {
        Some(PrefName::DecimalSeparators)
    } else if eq_str(s, "BlockSeparators") {
        Some(PrefName::BlockSeparators)
    } else if eq_str(s, "TTS") {
        Some(PrefName::Tts)
    } else if eq_str(s, "NavVerbosity") {
        Some(PrefName::NavVerbosity)
    } else if eq_str(s, "NavMode") {
        Some(PrefName::NavMode)
    } else if eq_str(s, "SpeechOverrides_CapitalLetters") {
        Some(PrefName::CapitalLetters)
    } else if eq_str(s, "MathRate") {
        Some(PrefName::MathRate)
    } else if eq_str(s, "CapitalLetters_Beep") {
        Some(PrefName::CapitalLettersBeep)
    } else if eq_str(s, "IntentErrorRecovery") {
        Some(PrefName::IntentErrorRecovery)
    } else if eq_str(s, "Bookmark") {
        Some(PrefName::Bookmark)
    } else {
        None
    }
}

pub open spec fn is_decimal_digit(c: char) -> bool {
    '0' <= c && c <= '9'
}

/// A count: one to nine decimal digits.
pub open spec fn is_count(v: Seq<char>) -> bool {
    0 < v.len() <= 9 && forall|i: int| 0 <= i < v.len() ==> is_decimal_digit(#[trigger] v[i])
}

pub open spec fn is_flag(v: Seq<char>) -> bool {
    v == "true"@ || v == "false"@
}

pub open spec fn is_level(v: Seq<char>) -> bool {
    v == "Terse"@ || v == "Medium"@ || v == "Verbose"@
}

/// The values a preference accepts.
pub open spec fn valid_value(p: PrefName, v: Seq<char>) -> bool {
    match p {
        PrefName::Verbosity | PrefName::NavVerbosity => is_level(v),
        PrefName::VerticalLine => v == "Auto"@ || v == "Divides"@ || v == "Given"@ || v
            == "SuchThat"@,
        PrefName::Ellipses => v == "Auto"@ || v == "AndSoOn"@,
        PrefName::MultSymbolX => v == "Auto"@ || v == "By"@ || v == "Cross"@,
        PrefName::ImpliedTimes => v == "Auto"@ || v == "MoreImpliedTimes"@ || v == "None"@,
        PrefName::Impairment => v == "Blindness"@ || v == "LowVision"@ || v
            == "LearningDisability"@,
        PrefName::BrailleCode => v == "Nemeth"@,
        PrefName::Tts => v == "None"@ || v == "SSML"@ || v == "SAPI5"@,
        PrefName::NavMode => v == "Enhanced"@ || v == "Simple"@ || v == "Character"@,
        PrefName::IntentErrorRecovery => v == "IgnoreIntent"@ || v == "Error"@,
        PrefName::MathRate => is_count(v),
        PrefName::CapitalLettersBeep | PrefName::Bookmark => is_flag(v),
        _ => true,
    }
}

fn is_count_exec(v: &Vec<char>) -> (r: bool)
    ensures
        r == is_count(v@),
{
    if v.len() == 0 || v.len() > 9 {
        return false;
    }
    let mut i: usize = 0;
    while i < v.len()
        invariant
            i <= v@.len(),
            forall|k: int| 0 <= k < i ==> is_decimal_digit(#[trigger] v@[k]),
        decreases v.len() - i,
    {
        if !('0' <= v[i] && v[i] <= '9') {
            return false;
        }
        i = i + 1;
    }
    true
}

pub fn is_valid_value(p: PrefName, v: &Vec<char>) -> (r: bool)
    ensures
        r == valid_value(p, v@),
{
    match p {
        PrefName::Verbosity | PrefName::NavVerbosity => eq_str(v, "Terse") || eq_str(v, "Medium")
            || eq_str(v, "Verbose"),
        PrefName::VerticalLine => eq_str(v, "Auto") || eq_str(v, "Divides") || eq_str(v, "Given")
            || eq_str(v, "SuchThat"),
        PrefName::Ellipses => eq_str(v, "Auto") || eq_str(v, "AndSoOn"),
        PrefName::MultSymbolX => eq_str(v, "Auto") || eq_str(v, "By") || eq_str(v, "Cross"),
        PrefName::ImpliedTimes => eq_str(v, "Auto") || eq_str(v, "MoreImpliedTimes") || eq_str(
            v,
            "None",
        ),
        PrefName::Impairment => eq_str(v, "Blindness") || eq_str(v, "LowVision") || eq_str(
            v,
            "LearningDisability",
        ),
        PrefName::BrailleCode => eq_str(v, "Nemeth"),
        PrefName::Tts => eq_str(v, "None") || eq_str(v, "SSML") || eq_str(v, "SAPI5"),
        PrefName::NavMode => eq_str(v, "Enhanced") || eq_str(v, "Simple") || eq_str(
            v,
            "Character",
        ),
        PrefName::IntentErrorRecovery => eq_str(v, "IgnoreIntent") || eq_str(v, "Error"),
        PrefName::MathRate => is_count_exec(v),
        PrefName::CapitalLettersBeep | PrefName::Bookmark => eq_str(v, "true") || eq_str(
            v,
            "false",
        ),
        _ => true,
    }
}

/// The value each preference starts with.
pub open spec fn default_value(p: PrefName) -> Seq<char> {
    match p {
        PrefName::Language => "nb"@,
        PrefName::SpeechStyle => "ClearSpeak"@,
        PrefName::Verbosity => "Medium"@,
        PrefName::VerticalLine => "Auto"@,
        PrefName::Ellipses => "Auto"@,
        PrefName::MultSymbolX => "Auto"@,
        PrefName::ImpliedTimes => "Auto"@,
        PrefName::Impairment => "Blindness"@,
        PrefName::BrailleCode => "Nemeth"@,
        PrefName::DecimalSeparator => "Auto"@,
        PrefName::DecimalSeparators => "."@,
        PrefName::BlockSeparators => ", "@,
        PrefName::Tts => "None"@,
        PrefName::NavVerbosity => "Medium"@,
        PrefName::NavMode => "Enhanced"@,
        PrefName::CapitalLetters => ""@,
        PrefName::MathRate => "100"@,
        PrefName::CapitalLettersBeep => "false"@,
        PrefName::IntentErrorRecovery => "IgnoreIntent"@,
        PrefName::Bookmark => "false"@,
    }
}

fn default_of(p: PrefName) -> (r: Vec<char>)
    ensures
        r@ == default_value(p),
{
    match p {
        PrefName::Language => chars_of("nb"),
        PrefName::SpeechStyle => chars_of("ClearSpeak"),
        PrefName::Verbosity => chars_of("Medium"),
        PrefName::VerticalLine => chars_of("Auto"),
        PrefName::Ellipses => chars_of("Auto"),
        PrefName::MultSymbolX => chars_of("Auto"),
        PrefName::ImpliedTimes => chars_of("Auto"),
        PrefName::Impairment => chars_of("Blindness"),
        PrefName::BrailleCode => chars_of("Nemeth"),
        PrefName::DecimalSeparator => chars_of("Auto"),
        PrefName::DecimalSeparators => chars_of("."),
        PrefName::BlockSeparators => chars_of(", "),
        PrefName::Tts => chars_of("None"),
        PrefName::NavVerbosity => chars_of("Medium"),
        PrefName::NavMode => chars_of("Enhanced"),
        PrefName::CapitalLetters => chars_of(""),
        PrefName::MathRate => chars_of("100"),
        PrefName::CapitalLettersBeep => chars_of("false"),
        PrefName::IntentErrorRecovery => chars_of("IgnoreIntent"),
        PrefName::Bookmark => chars_of("false"),
    }
}

/// The preference at a position of the store.
pub open spec fn pref_at(i: nat) -> PrefName {
    if i == 0 { PrefName::Language }
    else if i == 1 { PrefName::SpeechStyle }
    else if i == 2 { PrefName::Verbosity }
    else if i == 3 { PrefName::VerticalLine }
    else if i == 4 { PrefName::Ellipses }
    else if i == 5 { PrefName::MultSymbolX }
    else if i == 6 { PrefName::ImpliedTimes }
    else if i == 7 { PrefName::Impairment }
    else if i == 8 { PrefName::BrailleCode }
    else if i == 9 { PrefName::DecimalSeparator }
    else if i == 10 { PrefName::DecimalSeparators }
    else if i == 11 { PrefName::BlockSeparators }
    else if i == 12 { PrefName::Tts }
    else if i == 13 { PrefName::NavVerbosity }
    else if i == 14 { PrefName::NavMode }
    else if i == 15 { PrefName::CapitalLetters }
    else if i == 16 { PrefName::MathRate }
    else if i == 17 { PrefName::CapitalLettersBeep }
    else if i == 18 { PrefName::IntentErrorRecovery }
    else { PrefName::Bookmark }
}

fn pref_at_exec(i: usize) -> (r: PrefName)
    requires
        i < PREF_COUNT,
    ensures
        r == pref_at(i as nat),
        slot(r) == i,
{
    if i == 0 { PrefName::Language }
    else if i == 1 { PrefName::SpeechStyle }
    else if i == 2 { PrefName::Verbosity }
    else if i == 3 { PrefName::VerticalLine }
    else if i == 4 { PrefName::Ellipses }
    else if i == 5 { PrefName::MultSymbolX }
    else if i == 6 { PrefName::ImpliedTimes }
    else if i == 7 { PrefName::Impairment }
    else if i == 8 { PrefName::BrailleCode }
    else if i == 9 { PrefName::DecimalSeparator }
    else if i == 10 { PrefName::DecimalSeparators }
    else if i == 11 { PrefName::BlockSeparators }
    else if i == 12 { PrefName::Tts }
    else if i == 13 { PrefName::NavVerbosity }
    else if i == 14 { PrefName::NavMode }
    else if i == 15 { PrefName::CapitalLetters }
    else if i == 16 { PrefName::MathRate }
    else if i == 17 { PrefName::CapitalLettersBeep }
    else if i == 18 { PrefName::IntentErrorRecovery }
    else { PrefName::Bookmark }
}

/// A store of preference values, one per known preference.
#[derive(Debug)]
pub struct Preferences {
    values: Vec<Vec<char>>,
}

impl Preferences {
    /// The current value of a preference.
    pub closed spec fn value(&self, p: PrefName) -> Seq<char> {
        self.values@[slot(p) as int]@
    }

    /// Every preference holds a value of its domain.
    pub closed spec fn wf(&self) -> bool {
        &&& self.values@.len() == PREF_COUNT
        &&& forall|p: PrefName| #[trigger] valid_value(p, self.value(p))
    }

    /// A store with every preference at its default.
    pub fn new() -> (r: Preferences)
        ensures
            r.wf(),
            forall|p: PrefName| #[trigger] r.value(p) == default_value(p),
    {
        let mut values: Vec<Vec<char>> = Vec::new();
        let mut i: usize = 0;
        while i < PREF_COUNT
            invariant
                i <= PREF_COUNT,
                values@.len() == i,
                forall|k: int| 0 <= k < i ==> #[trigger] values@[k]@ == default_value(pref_at(k as nat)),
            decreases PREF_COUNT - i,
        {
            let p = pref_at_exec(i);
            values.push(default_of(p));
            i = i + 1;
        }
        let r = Preferences { values };
        assert forall|p: PrefName| #[trigger] r.value(p) == default_value(p) by {
            assert(pref_at(slot(p)) == p);
        }
        assert forall|p: PrefName| #[trigger] valid_value(p, r.value(p)) by {
            assert(r.value(p) == default_value(p));
            if p == PrefName::MathRate {
                reveal_strlit("100");
            }
        }
        r
    }

    /// Reads a preference by name.
    pub fn get(&self, name: &Vec<char>) -> (r: Result<Vec<char>, PreferenceError>)
        requires
            self.wf(),
        ensures
            match pref_named(name@) {
                Some(p) => r matches Ok(v) && v@ == self.value(p),
                None => r == Err::<Vec<char>, PreferenceError>(PreferenceError::UnknownPreference),
            },
    {
        match pref_of_name(name) {
            Some(p) => {
                let v = self.read(p);
                Ok(v)
            },
            None => Err(PreferenceError::UnknownPreference),
        }
    }

    /// The current value of a known preference.
    pub fn read(&self, p: PrefName) -> (r: Vec<char>)
        requires
            self.wf(),
        ensures
            r@ == self.value(p),
    {
        let s = slot_of(p);
        let src = &self.values[s];
        let mut r: Vec<char> = Vec::new();
        crate::text::push_all(&mut r, src);
        r
    }

    /// Writes a preference by name. An unknown name or a value outside the preference's
    /// domain is rejected and leaves the store as it was.
    pub fn set(&mut self, name: &Vec<char>, value: Vec<char>) -> (r: Result<(), PreferenceError>)
        requires
            old(self).wf(),
        ensures
            final(self).wf(),
            match pref_named(name@) {
                None => r == Err::<(), PreferenceError>(PreferenceError::UnknownPreference)
                    && *final(self) == *old(self),
                Some(p) => if valid_value(p, value@) {
                    &&& r == Ok::<(), PreferenceError>(())
                    &&& final(self).value(p) == value@
                    &&& forall|q: PrefName| q != p ==> #[trigger] final(self).value(q) == old(self).value(q)
                } else {
                    r == Err::<(), PreferenceError>(PreferenceError::InvalidPreference)
                        && *final(self) == *old(self)
                },
            },
    {
        match pref_of_name(name) {
            None => Err(PreferenceError::UnknownPreference),
            Some(p) => {
                if !is_valid_value(p, &value) {
                    return Err(PreferenceError::InvalidPreference);
                }
                let s = slot_of(p);
                let ghost before = *self;
                self.values.set(s, value);
                proof {
                    assert forall|q: PrefName| q != p implies #[trigger] self.value(q) == before.value(q) by {
                        assert(slot(q) != slot(p));
                    }
                    assert forall|q: PrefName| #[trigger] valid_value(q, self.value(q)) by {
                        if q != p {
                            assert(self.value(q) == before.value(q));
                        }
                    }
                }
                Ok(())
            },
        }
    }
}

} // verus!
