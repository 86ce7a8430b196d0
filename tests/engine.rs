//! Behaviour of the session: fallback, errors, intents, verbosity and the preference store.
use mathcat_speech::markup::MarkupError;
use mathcat_speech::prefs::PreferenceError;
use mathcat_speech::repo::{get_supported_braille_codes, get_supported_languages, get_supported_speech_styles};
use mathcat_speech::session::{EngineError, Session};

fn session(lang: &str, style: &str, prefs: &[(&str, &str)]) -> Session {
    let mut s = Session::new();
    s.set_preference("Language".to_string(), lang.to_string()).unwrap();
    s.set_preference("SpeechStyle".to_string(), style.to_string()).unwrap();
    for (n, v) in prefs {
        s.set_preference(n.to_string(), v.to_string()).unwrap();
    }
    s
}

fn spoken(lang: &str, style: &str, prefs: &[(&str, &str)], expr: &str) -> Result<String, EngineError> {
    let mut s = session(lang, style, prefs);
    s.set_mathml(expr.to_string())?;
    s.get_spoken_text()
}

const TIMES: &str = "<math><mn>2</mn><mo>×</mo><mn>3</mn></math>";
const LN_SUM: &str = "<math><mi>ln</mi><mrow><mo>(</mo><mrow><mi>x</mi><mo>+</mo><mi>y</mi></mrow><mo>)</mo></mrow></math>";

#[test]
fn repeated_rendering_is_identical() {
    let mut s = session("nb", "SimpleSpeak", &[]);
    s.set_mathml(LN_SUM.to_string()).unwrap();
    let first = s.get_spoken_text().unwrap();
    let second = s.get_spoken_text().unwrap();
    assert_eq!(first, second);
    assert_eq!(first, "den naturlige logaritmen av, startparentes; x pluss y; sluttparentes");
}

#[test]
fn unregistered_style_falls_back_to_default() {
    assert_eq!(spoken("nb", "MathSpeak", &[], TIMES).unwrap(), "2 ganger 3");
    let cross = [("ClearSpeak_MultSymbolX", "Cross")];
    assert_eq!(spoken("nb", "MathSpeak", &cross, TIMES).unwrap(), "2 kryss 3");
}

#[test]
fn regional_language_falls_back_to_base() {
    assert_eq!(spoken("nb-NO", "ClearSpeak", &[], TIMES).unwrap(), "2 ganger 3");
}

#[test]
fn unsupported_language_is_reported() {
    assert_eq!(spoken("en", "ClearSpeak", &[], TIMES), Err(EngineError::UnsupportedLocale));
}

#[test]
fn speaking_without_expression_is_an_error() {
    let s = Session::new();
    assert_eq!(s.get_spoken_text(), Err(EngineError::NoActiveExpression));
}

#[test]
fn malformed_markup_is_rejected() {
    let mut s = Session::new();
    assert_eq!(
        s.set_mathml("<math><mi>x</mi></mrow>".to_string()),
        Err(EngineError::Markup(MarkupError::Malformed))
    );
    assert_eq!(s.get_spoken_text(), Err(EngineError::NoActiveExpression));
}

#[test]
fn failed_parse_keeps_previous_expression() {
    let mut s = Session::new();
    s.set_mathml(TIMES.to_string()).unwrap();
    assert!(s.set_mathml("<math><mi>x".to_string()).is_err());
    assert_eq!(s.get_spoken_text().unwrap(), "2 ganger 3");
}

#[test]
fn intent_with_missing_argument_is_rejected() {
    let expr = "<math><mrow intent='open-interval($start, $end)'><mi arg='start'>c</mi><mo>,</mo><mi>d</mi></mrow></math>";
    let mut s = Session::new();
    assert_eq!(s.set_mathml(expr.to_string()), Err(EngineError::Markup(MarkupError::MissingArgument)));
}

#[test]
fn unmatched_bracket_has_no_rule() {
    assert_eq!(
        spoken("nb", "ClearSpeak", &[], "<math><mo>(</mo><mi>x</mi></math>"),
        Err(EngineError::NoApplicableRule)
    );
}

#[test]
fn intent_overrides_bar_reading() {
    let expr = "<math><mrow intent='open-interval($a,$b)'><mi arg='a'>c</mi><mo>|</mo><mi arg='b'>d</mi></mrow></math>";
    let divides = [("ClearSpeak_VerticalLine", "Divides")];
    assert_eq!(spoken("nb", "ClearSpeak", &divides, expr).unwrap(), "det åpne intervallet fra c til d");
    let plain = "<math><mi>c</mi><mo>|</mo><mi>d</mi></math>";
    assert_eq!(spoken("nb", "ClearSpeak", &divides, plain).unwrap(), "c deler d");
}

#[test]
fn bar_such_that_outside_a_set() {
    let expr = "<math><mn>3</mn><mo>|</mo><mn>6</mn></math>";
    let such = [("ClearSpeak_VerticalLine", "SuchThat")];
    assert_eq!(spoken("nb", "ClearSpeak", &such, expr).unwrap(), "3 slik at 6");
}

#[test]
fn verbosity_alternates_for_natural_log() {
    let t = spoken("nb", "SimpleSpeak", &[("Verbosity", "Terse")], LN_SUM).unwrap();
    let m = spoken("nb", "SimpleSpeak", &[("Verbosity", "Medium")], LN_SUM).unwrap();
    let v = spoken("nb", "SimpleSpeak", &[("Verbosity", "Verbose")], LN_SUM).unwrap();
    assert_eq!(t, "l n av, startparentes; x pluss y; sluttparentes");
    assert_eq!(m, v);
    assert_ne!(t, m);
}

#[test]
fn exponential_function_by_verbosity() {
    let expr = "<math><mi>exp</mi><mo>(</mo><mi>x</mi><mo>)</mo></math>";
    assert_eq!(spoken("nb", "SimpleSpeak", &[("Verbosity", "Verbose")], expr).unwrap(), "eksponensialfunksjonen av x");
}

#[test]
fn fractions_and_roots() {
    let plain = "<math><mfrac><mn>3</mn><mn>5</mn></mfrac></math>";
    assert_eq!(spoken("nb", "SimpleSpeak", &[], plain).unwrap(), "3 over 5");
    let general = "<math><mfrac><mrow><mi>x</mi><mo>+</mo><mn>1</mn></mrow><mn>2</mn></mfrac></math>";
    assert_eq!(spoken("nb", "SimpleSpeak", &[], general).unwrap(), "brøk, x pluss 1 over 2, slutt brøk");
    let cube = "<math><mroot><mi>x</mi><mn>3</mn></mroot></math>";
    assert_eq!(spoken("nb", "SimpleSpeak", &[], cube).unwrap(), "kubikkroten av x");
}

#[test]
fn references_capitals_and_relations() {
    let expr = "<math><mi>A</mi><mo>&lt;</mo><mn>2</mn></math>";
    assert_eq!(spoken("nb", "ClearSpeak", &[], expr).unwrap(), "stor a er mindre enn 2");
}

#[test]
fn preferences_are_validated() {
    let mut s = Session::new();
    assert_eq!(s.get_preference("Verbosity".to_string()).unwrap(), "Medium");
    assert_eq!(
        s.set_preference("Verbosity".to_string(), "Chatty".to_string()),
        Err(PreferenceError::InvalidPreference)
    );
    assert_eq!(s.get_preference("Verbosity".to_string()).unwrap(), "Medium");
    assert_eq!(
        s.set_preference("Volume".to_string(), "11".to_string()),
        Err(PreferenceError::UnknownPreference)
    );
    assert_eq!(s.get_preference("Volume".to_string()), Err(PreferenceError::UnknownPreference));
    assert_eq!(s.set_preference("MathRate".to_string(), "80".to_string()), Ok(()));
    assert_eq!(s.get_preference("MathRate".to_string()).unwrap(), "80");
    assert_eq!(
        s.set_preference("MathRate".to_string(), "fast".to_string()),
        Err(PreferenceError::InvalidPreference)
    );
    assert_eq!(s.set_preference("Bookmark".to_string(), "true".to_string()), Ok(()));
    assert_eq!(s.get_preference("Bookmark".to_string()).unwrap(), "true");
}

#[test]
fn repository_lists() {
    assert_eq!(get_supported_languages(), vec!["nb".to_string()]);
    assert_eq!(get_supported_braille_codes(), vec!["Nemeth".to_string()]);
    let nb: Vec<char> = "nb-NO".chars().collect();
    assert_eq!(get_supported_speech_styles(&nb), vec!["ClearSpeak".to_string(), "SimpleSpeak".to_string()]);
    let en: Vec<char> = "en".chars().collect();
    assert!(get_supported_speech_styles(&en).is_empty());
}

fn braille(expr: &str) -> Result<String, EngineError> {
    let mut s = Session::new();
    s.set_mathml(expr.to_string())?;
    s.get_braille(String::new())
}

#[test]
fn nemeth_numbers_and_operators() {
    assert_eq!(braille("<math><mn>2</mn><mo>+</mo><mn>3</mn></math>").unwrap(), "⠼⠆⠬⠒");
    assert_eq!(braille("<math><mfrac><mn>1</mn><mn>2</mn></mfrac></math>").unwrap(), "⠹⠂⠌⠆⠼");
    assert_eq!(braille("<math><msup><mi>x</mi><mn>2</mn></msup></math>").unwrap(), "⠭⠘⠆⠐");
}

#[test]
fn nemeth_interval_intent() {
    let expr = "<math><mrow intent='closed-open-interval($a,$b)'><mi arg='a'>c</mi><mo>,</mo><mi arg='b'>d</mi></mrow></math>";
    assert_eq!(braille(expr).unwrap(), "⠈⠷⠉⠠⠀⠙⠾");
}

#[test]
fn nemeth_bar_follows_reading() {
    let expr = "<math><mn>3</mn><mo>|</mo><mn>6</mn></math>";
    assert_eq!(braille(expr).unwrap(), "⠼⠒⠳⠖");
    let mut s = Session::new();
    s.set_preference("ClearSpeak_VerticalLine".to_string(), "Given".to_string()).unwrap();
    s.set_mathml(expr.to_string()).unwrap();
    assert_eq!(s.get_braille(String::new()).unwrap(), "⠼⠒⠀⠳⠀⠼⠖");
}

#[test]
fn nemeth_scripts_and_roots() {
    assert_eq!(braille("<math><mroot><mi>x</mi><mn>3</mn></mroot></math>").unwrap(), "⠣⠒⠜⠭⠻");
    assert_eq!(braille("<math><msubsup><mi>x</mi><mn>0</mn><mn>1</mn></msubsup></math>").unwrap(), "⠭⠰⠴⠘⠂⠐");
}

#[test]
fn braille_without_expression_is_an_error() {
    assert_eq!(Session::new().get_braille(String::new()), Err(EngineError::NoActiveExpression));
}

#[test]
fn sine_applied_to_x() {
    let expr = "<math><mi>sin</mi><mo>&#x2061;</mo><mi>x</mi></math>";
    assert_eq!(spoken("nb", "ClearSpeak", &[], expr).unwrap(), "sinus av x");
}

#[test]
fn open_interval_intent_in_clearspeak() {
    let expr = "<math><mrow intent='open-interval($start, $end)'><mo>(</mo><mi arg='start'>c</mi><mo>,</mo><mi arg='end'>d</mi><mo>)</mo></mrow></math>";
    assert_eq!(spoken("nb", "ClearSpeak", &[], expr).unwrap(), "det åpne intervallet fra c til d");
}

#[test]
fn decimal_character_reference() {
    let expr = "<math><mn>3</mn><mo>&#124;</mo><mn>6</mn></math>";
    assert_eq!(spoken("nb", "ClearSpeak", &[], expr).unwrap(), "3 deler 6");
}

#[test]
fn unknown_character_reference_is_malformed() {
    let mut s = Session::new();
    assert_eq!(
        s.set_mathml("<math><mo>&nbsp;</mo></math>".to_string()),
        Err(EngineError::Markup(MarkupError::Malformed))
    );
}
