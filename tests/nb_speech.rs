//! Norwegian speech: ClearSpeak symbols and adornments, SimpleSpeak functions and parentheses.
#![allow(non_snake_case)]

use mathcat_speech::session::Session;

fn speak_with(lang: &str, style: &str, prefs: Vec<(&str, &str)>, expr: &str) -> String {
    let mut session = Session::new();
    session.set_preference("Language".to_string(), lang.to_string()).unwrap();
    session.set_preference("SpeechStyle".to_string(), style.to_string()).unwrap();
    for (name, value) in prefs {
        session.set_preference(name.to_string(), value.to_string()).unwrap();
    }
    session.set_mathml(expr.to_string()).unwrap();
    session.get_spoken_text().unwrap()
}

fn test(lang: &str, style: &str, expr: &str, expected: &str) {
    assert_eq!(speak_with(lang, style, vec![], expr), expected);
}

fn test_prefs(lang: &str, style: &str, prefs: Vec<(&str, &str)>, expr: &str, expected: &str) {
    assert_eq!(speak_with(lang, style, prefs, expr), expected);
}

fn test_ClearSpeak(lang: &str, name: &str, value: &str, expr: &str, expected: &str) {
    assert_eq!(speak_with(lang, "ClearSpeak", vec![(name, value)], expr), expected);
}

fn test_ClearSpeak_prefs(lang: &str, prefs: Vec<(&str, &str)>, expr: &str, expected: &str) {
    assert_eq!(speak_with(lang, "ClearSpeak", prefs, expr), expected);
}

#[test]
fn multiplication() {
    let expr = "<math>
                    <mn>2</mn><mo>×</mo><mn>3</mn>
                </math>";
    test("nb", "ClearSpeak", expr, "2 ganger 3");
}

#[test]
fn multiplication_by() {
    let expr = "<math>
                    <mn>2</mn><mo>×</mo><mn>3</mn>
                </math>";
    test_ClearSpeak("nb", "ClearSpeak_MultSymbolX", "By", expr, "2 ganger 3");
}

#[test]
fn multiplication_cross() {
    let expr = "<math>
                    <mi>u</mi><mo>×</mo><mi>v</mi>
                </math>";
    test_ClearSpeak("nb", "ClearSpeak_MultSymbolX", "Cross", expr, "u kryss v");
}

#[test]
fn ellipses_auto_start() {
    let expr = "<math>
            <mi>…</mi><mo>,</mo>
            <mo>-</mo><mn>2</mn><mo>,</mo><mo>-</mo><mn>1</mn><mo>,</mo><mn>0</mn>
        </math>";
    test("nb", "ClearSpeak", expr, "prikk prikk prikk komma, minus 2 komma, minus 1 komma, 0");
}

#[test]
fn ellipses_auto_end() {
    let expr = "<math>
            <mn>1</mn>
            <mo>,</mo>
            <mn>2</mn>
            <mo>,</mo>
            <mn>3</mn>
            <mo>,</mo>
            <mi>…</mi>
        </math>";
    test_ClearSpeak("nb", "ClearSpeak_Ellipses", "Auto", expr, "1 komma, 2 komma, 3 komma, prikk prikk prikk");
}

#[test]
fn ellipses_auto_middle() {
    let expr = "<math>
            <mrow>
                <mn>1</mn>
                <mo>,</mo>
                <mn>2</mn>
                <mo>,</mo>
                <mn>3</mn>
                <mo>,</mo>
                <mi>…</mi>
                <mo>,</mo>
                <mn>20</mn>
            </mrow>
        </math>";
    test_ClearSpeak("nb", "ClearSpeak_Ellipses", "Auto", expr,
            "1 komma, 2 komma, 3 komma, prikk prikk prikk komma, 20");
}

#[test]
fn ellipses_auto_both() {
    let expr = "<math>
            <mi>…</mi><mo>,</mo>
            <mo>-</mo><mn>2</mn><mo>,</mo><mo>-</mo><mn>1</mn><mo>,</mo><mn>0</mn><mo>,</mo><mn>1</mn><mo>,</mo><mn>2</mn>
            <mo>,</mo><mi>…</mi>
       </math>";
    test_ClearSpeak("nb", "ClearSpeak_Ellipses", "Auto", expr,
            "prikk prikk prikk komma, minus 2 komma, minus 1 komma, 0 komma, 1 komma, 2 komma, prikk prikk prikk");
}

#[test]
fn ellipses_and_so_on_start() {
    let expr = "<math>
            <mi>…</mi><mo>,</mo>
            <mo>-</mo><mn>2</mn><mo>,</mo><mo>-</mo><mn>1</mn><mo>,</mo><mn>0</mn>
        </math>";
        test_ClearSpeak("nb", "ClearSpeak_Ellipses", "AndSoOn", expr, "prikk prikk prikk komma, minus 2 komma, minus 1 komma, 0");
}

#[test]
fn ellipses_and_so_on_end() {
    let expr = "<math>
            <mn>1</mn>
            <mo>,</mo>
            <mn>2</mn>
            <mo>,</mo>
            <mn>3</mn>
            <mo>,</mo>
            <mi>…</mi>
        </math>";
    test_ClearSpeak("nb", "ClearSpeak_Ellipses", "AndSoOn", expr, "1 komma, 2 komma, 3 og så videre");
}

#[test]
fn ellipses_and_so_on_middle() {
    let expr = "<math>
            <mrow>
                <mn>1</mn>
                <mo>,</mo>
                <mn>2</mn>
                <mo>,</mo>
                <mn>3</mn>
                <mo>,</mo>
                <mi>…</mi>
                <mo>,</mo>
                <mn>20</mn>
            </mrow>
        </math>";
    test_ClearSpeak("nb", "ClearSpeak_Ellipses", "AndSoOn", expr,
            "1 komma, 2 komma, 3 og så videre opp til, 20");
}

#[test]
fn ellipses_and_so_on_both() {
    let expr = "<math>
            <mi>…</mi><mo>,</mo>
            <mo>-</mo><mn>2</mn><mo>,</mo><mo>-</mo><mn>1</mn><mo>,</mo><mn>0</mn><mo>,</mo><mn>1</mn><mo>,</mo><mn>2</mn>
            <mo>,</mo><mi>…</mi>
       </math>";
    test_ClearSpeak("nb", "ClearSpeak_Ellipses", "AndSoOn", expr,
            "prikk prikk prikk komma, minus 2 komma, minus 1 komma, 0 komma, 1 komma, 2 komma, prikk prikk prikk");
}

#[test]
fn vertical_line_auto() {
    let expr = "<math>
        <mn>3</mn><mo>|</mo><mn>6</mn>
    </math>";
    test_ClearSpeak("nb", "ClearSpeak_VerticalLine", "Auto", expr,
            "3 deler 6");
}

#[test]
fn vertical_line_divides() {
    let expr = "<math>
        <mn>3</mn><mo>|</mo><mn>6</mn>
    </math>";
    test_ClearSpeak("nb", "ClearSpeak_VerticalLine", "Divides", expr,
            "3 deler 6");
}

    #[test]
    fn vertical_line_given() {
        let expr = "<math>
            <mn>3</mn><mo>|</mo><mn>6</mn>
        </math>";
        test_ClearSpeak("nb", "ClearSpeak_VerticalLine", "Given", expr,
                "3, gitt 6");
    }

    #[test]
    fn vertical_line_probability_given() {
        let expr = "<math>
                <mi>P</mi>
                <mrow>
                    <mo>(</mo>
                    <mrow>
                        <mi>A</mi>
                        <mo>|</mo>
                        <mi>B</mi>
                    </mrow>
                    <mo>)</mo>
                </mrow>
            </math>";
        test_ClearSpeak_prefs("nb", vec![("ClearSpeak_VerticalLine", "Given"), ("ClearSpeak_ImpliedTimes", "None")]
                        , expr, "stor p; startparentes; stor a, gitt stor b; sluttparentes");
    }

#[test]
fn vertical_line_set() {
    let expr = "<math>
        <mo>{</mo>
        <mrow>
            <mi>x</mi>
            <mo>|</mo>
            <mi>x</mi>
            <mo>&gt;</mo>
            <mn>0</mn>
        </mrow>
        <mo>}</mo>    
    </math>";
    test_ClearSpeak("nb", "ClearSpeak_VerticalLine", "Auto", expr,
            "mengden av alle x slik at x er større enn 0");
}


#[test]
fn vertical_line_set_such_that() {
    let expr = "<math>
        <mo>{</mo>
        <mrow>
            <mi>x</mi>
            <mo>|</mo>
            <mi>x</mi>
            <mo>&gt;</mo>
            <mn>0</mn>
        </mrow>
        <mo>}</mo>    
    </math>";
    test_ClearSpeak("nb", "ClearSpeak_VerticalLine", "SuchThat", expr,
            "mengden av alle x slik at x er større enn 0");
}

#[test]
fn vertical_line_set_given() {
    let expr = "<math>
        <mo>{</mo>
        <mrow>
            <mi>x</mi>
            <mo>|</mo>
            <mi>x</mi>
            <mo>&gt;</mo>
            <mn>0</mn>
        </mrow>
        <mo>}</mo>    
    </math>";
    test_ClearSpeak("nb", "ClearSpeak_VerticalLine", "Given", expr,
            "mengden av alle x slik at x er større enn 0");
}

#[test]
fn vertical_line_set_and_abs() {
    let expr = "<math>
            <mo>{</mo>
            <mrow>
                <mi>x</mi>
                <mo>&#x007C;</mo>
                <mrow>
                    <mo>|</mo>
                    <mi>x</mi>
                    <mo>|</mo>
                </mrow>
                <mo>&gt;</mo>
                <mn>2</mn>
            </mrow>
            <mo>}</mo>
        </math>";
    test_ClearSpeak("nb", "ClearSpeak_VerticalLine", "Auto", expr,
        "mengden av alle x slik at absoluttverdien av x; er større enn 2");
}

#[test]
fn vertical_line_evaluated_at() {
    let expr = "<math>
            <mi>f</mi>
            <mrow>
                <mo>(</mo>
                <mi>x</mi>
                <mo>)</mo>
            </mrow>
            <msub>
                <mo>&#x007C;</mo>
                <mrow>
                    <mi>x</mi>
                    <mo>=</mo>
                    <mn>5</mn>
                </mrow>
            </msub>
        </math>";
    test_ClearSpeak("nb", "ClearSpeak_VerticalLine", "Auto", expr,
        "f av x evaluert i x er lik 5");
}

#[test]
fn vertical_line_evaluated_at_both() {
    let expr = "<math>
            <msup>
            <mi>x</mi>
            <mn>2</mn>
            </msup>
            <mo>+</mo>
            <mi>x</mi>
            <msubsup>
                <mstyle mathsize='140%' displaystyle='true'> <mo>&#x007C;</mo> </mstyle>
                <mn>0</mn>
                <mn>1</mn>
            </msubsup>
        </math>";
    test_ClearSpeak("nb", "ClearSpeak_VerticalLine", "Auto", expr,
        "x i andre pluss x, evaluert for øvre verdi, 1, og nedre verdi, 0");
}
#[test]
fn vertical_line_evaluated_at_divides() {
    let expr = "<math>
            <mi>f</mi>
            <mrow>
                <mo>(</mo>
                <mi>x</mi>
                <mo>)</mo>
            </mrow>
            <msub>
                <mo>&#x007C;</mo>
                <mrow>
                    <mi>x</mi>
                    <mo>=</mo>
                    <mn>5</mn>
                </mrow>
            </msub>
        </math>";
    test_ClearSpeak("nb", "ClearSpeak_VerticalLine", "Divides", expr,
        "f av x evaluert i x er lik 5");
}

#[test]
fn vertical_line_evaluated_at_both_given() {
    let expr = "<math>
            <msup>
            <mi>x</mi>
            <mn>2</mn>
            </msup>
            <mo>+</mo>
            <mi>x</mi>
            <msubsup>
                <mstyle mathsize='140%' displaystyle='true'> <mo>&#x007C;</mo> </mstyle>
                <mn>0</mn>
                <mn>1</mn>
            </msubsup>
        </math>";
    test_ClearSpeak("nb", "ClearSpeak_VerticalLine", "Given", expr,
        "x i andre pluss x, evaluert for øvre verdi, 1, og nedre verdi, 0");
}

#[test]
fn trig_names() {
    let expr = "<math><mrow>
    <mi>sin</mi><mi>x</mi><mo>+</mo>
    <mi>cos</mi><mi>y</mi><mo>+</mo>
    <mi>tan</mi><mi>z</mi><mo>+</mo>
    <mi>sec</mi><mi>&#x03B1;</mi><mo>+</mo>
    <mi>csc</mi><mi>&#x03D5;</mi><mo>+</mo>
    <mi>cot</mi><mi>&#x03C6;</mi>
    </mrow></math>";
    test("nb", "SimpleSpeak", expr, "sinus av x pluss cosinus av y pluss tangens av z pluss sekans av alfa, pluss cosekans av fi, pluss cotangens av fi");
}

#[test]
fn hyperbolic_trig_names() {
    let expr = "<math><mrow>
    <mi>sinh</mi><mi>x</mi><mo>+</mo>
    <mi>cosh</mi><mi>y</mi><mo>+</mo>
    <mi>tanh</mi><mi>z</mi><mo>+</mo>
    <mi>sech</mi><mi>&#x03B1;</mi><mo>+</mo>
    <mi>csch</mi><mi>&#x03D5;</mi><mo>+</mo>
    <mi>coth</mi><mi>&#x03C6;</mi>
    </mrow></math>";
    test("nb", "SimpleSpeak", expr, "sinus hyperbolicus av x, pluss cosinus hyperbolicus av y, pluss tangens hyperbolicus av z, pluss, sekans hyperbolicus av alfa, pluss cosekans hyperbolicus av fi, pluss cotangens hyperbolicus av fi");
}


#[test]
fn inverse_trig() {
    let expr = "<math><msup><mi>sin</mi><mrow><mo>-</mo><mn>1</mn></mrow></msup><mi>x</mi></math>";
    test("nb", "SimpleSpeak", expr, "invers sinus av x");
}

#[test]
fn trig_squared() {
    let expr = "<math><msup><mi>sin</mi><mn>2</mn></msup><mi>x</mi></math>";
    test("nb", "SimpleSpeak", expr, "sinus i andre av x");
}

#[test]
fn trig_cubed() {
    let expr = "<math><msup><mi>tan</mi><mn>3</mn></msup><mi>x</mi></math>";
    test("nb", "SimpleSpeak", expr, "tangens i tredje av x");
}

#[test]
fn trig_fourth() {
    let expr = "<math><msup><mi>sec</mi><mn>4</mn></msup><mi>x</mi></math>";
    test("nb", "SimpleSpeak", expr, "sekans opphøyd i 4, av x");
}


#[test]
fn trig_power_other() {
    let expr = "<math><msup><mi>sinh</mi><mrow>><mi>n</mi><mo>-</mo><mn>1</mn></mrow></msup><mi>x</mi></math>";
    test("nb", "SimpleSpeak", expr, "sinus hyperbolicus opphøyd i n minus 1, av x");
}

#[test]
fn simple_log() {
    let expr = "<math> <mrow>  <mi>log</mi><mi>x</mi></mrow> </math>";
    test("nb", "SimpleSpeak", expr, "log av x");
}

#[test]
fn normal_log() {
    let expr = "<math><mrow><mi>log</mi><mrow><mo>(</mo><mrow><mi>x</mi><mo>+</mo><mi>y</mi></mrow><mo>)</mo></mrow></mrow></math>";
    test("nb", "SimpleSpeak", expr, "log av, startparentes; x pluss y; sluttparentes");
}

#[test]
fn simple_log_with_base() {
    let expr = "<math> <mrow>  <msub><mi>log</mi><mi>b</mi></msub><mi>x</mi></mrow> </math>";
    test("nb", "SimpleSpeak", expr, "logaritmen med grunntall b, av x");
}

#[test]
fn normal_log_with_base() {
    let expr = "<math><mrow><msub><mi>log</mi><mi>b</mi></msub><mrow><mo>(</mo><mrow><mi>x</mi><mo>+</mo><mi>y</mi></mrow><mo>)</mo></mrow></mrow></math>";
    test("nb", "SimpleSpeak", expr, "logaritmen med grunntall b, av; startparentes; x pluss y; sluttparentes");
}

#[test]
fn normal_ln() {
    let expr = "<math><mrow><mi>ln</mi><mrow><mo>(</mo><mrow><mi>x</mi><mo>+</mo><mi>y</mi></mrow><mo>)</mo></mrow></mrow></math>";
    test_prefs("nb", "SimpleSpeak", vec![("Verbosity", "Terse")],
                expr, "l n av, startparentes; x pluss y; sluttparentes");
    test_prefs("nb", "SimpleSpeak", vec![("Verbosity", "Medium")],
                expr, "den naturlige logaritmen av, startparentes; x pluss y; sluttparentes");
    test_prefs("nb", "SimpleSpeak", vec![("Verbosity", "Verbose")],
                expr, "den naturlige logaritmen av, startparentes; x pluss y; sluttparentes");
}

#[test]
fn simple_ln() {
    let expr = "<math> <mrow>  <mi>ln</mi><mi>x</mi></mrow> </math>";
    test_prefs("nb", "SimpleSpeak", vec![("Verbosity", "Terse")],
                expr, "l n av x");
    test_prefs("nb", "SimpleSpeak", vec![("Verbosity", "Medium")],
                expr, "l n av x");
    test_prefs("nb", "SimpleSpeak", vec![("Verbosity", "Verbose")],
                expr, "den naturlige logaritmen av x");
}

#[test]
fn other_names() {
    let expr = "<math> <mrow><mi>Cov</mi><mi>x</mi></mrow> </math>";
    test_prefs("nb", "SimpleSpeak", vec![("Verbosity", "Terse")],
                expr, "kovarians x");
    test_prefs("nb", "SimpleSpeak", vec![("Verbosity", "Medium")],
                expr, "kovarians x");
    let expr = "<math> <mrow><mi>exp</mi><mo>(</mo><mi>x</mi><mo>)</mo></mrow> </math>";
    test_prefs("nb", "SimpleSpeak", vec![("Verbosity", "Terse")],
                expr, "exp av x");
    test_prefs("nb", "SimpleSpeak", vec![("Verbosity", "Medium")],
                expr, "eksponensialfunksjonen av x");
}

#[test]
fn explicit_function_call_with_parens() {
    let expr = "<math><mrow><mi>t</mi><mo>&#x2061;</mo><mrow><mo>(</mo><mi>x</mi><mo>)</mo></mrow></mrow></math>";
    test("nb", "SimpleSpeak", expr, "t av x");
}


#[test]
fn explicit_times_with_parens() {
    let expr = "<math><mrow><mi>t</mi><mo>&#x2062;</mo><mrow><mo>(</mo><mi>x</mi><mo>)</mo></mrow></mrow></math>";
    test("nb", "SimpleSpeak", expr, "t ganger x");
}

#[test]
fn explicit_function_call() {
    let expr = "<math><mrow><mi>t</mi><mo>&#x2061;</mo><mrow><mi>x</mi></mrow></mrow></math>";
    test("nb", "SimpleSpeak", expr, "t av x");
}

#[test]
fn explicit_times() {
    let expr = "<math><mrow><mi>t</mi><mo>&#x2062;</mo><mrow><mi>x</mi></mrow></mrow></math>";
    test("nb", "SimpleSpeak", expr, "t x");
}


/*
    * Tests for times
    */
#[test]
fn no_times_binomial() {
    let expr = "<math><mrow><mi>x</mi> <mo>&#x2062;</mo> <mi>y</mi></mrow></math>";
    test("nb", "SimpleSpeak", expr, "x y");
}

#[test]
fn times_following_paren() {
    let expr = "<math><mrow>
        <mn>2</mn>
        <mrow>  <mo>(</mo> <mn>3</mn>  <mo>)</mo> </mrow>
        </mrow></math>";
    test("nb", "SimpleSpeak", expr, "2 ganger 3");
}

#[test]
fn times_preceding_paren() {
    let expr = "<math><mrow>
        <mrow>  <mo>(</mo> <mn>2</mn>  <mo>)</mo> </mrow>
        <mn>3</mn>
        </mrow></math>";
    test("nb", "SimpleSpeak", expr, "2 ganger 3");
}

#[test]
fn no_times_sqrt() {
    let expr = "<math><mrow>
        <msqrt> <mi>a</mi>  </msqrt>
        <msqrt> <mi>b</mi>  </msqrt>
        <mo>=</mo>
        <msqrt> <mrow>  <mi>a</mi><mi>b</mi></mrow> </msqrt>
        </mrow></math>";
    test("nb", "SimpleSpeak", expr, 
            "kvadratroten av a; ganger kvadratroten av b; er lik, kvadratroten av a b, slutt rot");
    test_prefs("nb", "SimpleSpeak", vec![("Impairment", "LearningDisability")], expr,
            "kvadratroten av a; ganger kvadratroten av b; er lik, kvadratroten av a b, slutt rot");
}

/*
    * Tests for parens
    */
    #[test]
    fn no_parens_number() {
        let expr = "<math><mrow>
        <mrow><mo>(</mo>
        <mn>25</mn>
        <mo>)</mo></mrow>
        <mi>x</mi>
        </mrow></math>";
        test("nb", "SimpleSpeak", expr, "25 ganger x");
    }

    #[test]
    fn no_parens_monomial() {
        let expr = "<math><mrow>
        <mi>b</mi>
        <mrow><mo>(</mo>
        <mrow><mi>x</mi><mi>y</mi></mrow>
        <mo>)</mo></mrow>
        </mrow></math>";
        test("nb", "SimpleSpeak", expr, "b; startparentes; x y, sluttparentes");
    }

    #[test]
    fn no_parens_negative_number() {
        let expr = "<math><mrow>
        <mn>2</mn><mo>+</mo>
        <mrow><mo>(</mo>
        <mrow><mo>&#x2212;</mo><mn>2</mn></mrow>
        <mo>)</mo></mrow>
        </mrow></math>";
        test("nb", "SimpleSpeak", expr, "2 pluss minus 2");
    }


    #[test]
    fn no_parens_negative_number_with_var() {
        let expr = "<math><mrow>
        <mrow><mo>(</mo>
        <mrow><mo>&#x2212;</mo><mn>2</mn></mrow><mi>x</mi>
        <mo>)</mo></mrow>
        <mo>+</mo><mn>1</mn>
        </mrow></math>";
        test("nb", "SimpleSpeak", expr, "minus 2 x, pluss 1");
    }

    #[test]
    fn parens_superscript() {
        let expr = "<math><mrow>
        <mrow>
        <msup>
        <mrow>
            <mrow><mo>(</mo>
            <mrow> <mn>2</mn><mi>x</mi></mrow>
            <mo>)</mo></mrow></mrow>
        <mn>2</mn>
        </msup>
        </mrow>
    </mrow></math>";
        test("nb", "SimpleSpeak", expr, ", startparentes; 2 x, sluttparentes i andre");
    }

    #[test]
    fn no_parens_fraction() {
        let expr = "<math><mrow>
        <mn>2</mn>
        <mo>+</mo>
        <mrow>
            <mrow><mo>(</mo>
            <mfrac> <mn>1</mn><mn>2</mn></mfrac>
            <mo>)</mo></mrow></mrow>
    </mrow></math>";
        test("nb", "SimpleSpeak", expr, "2 pluss 1 halv");
    }


    // Tests for the four types of intervals in SimpleSpeak
    #[test]
    fn parens_interval_open_open() {
        let expr = "<math> 
        <mrow intent='open-interval($start, $end)'><mo>(</mo>
        <mrow> <mo arg='open'>(</mo><mi arg='start'>c</mi><mo>,</mo><mi arg='end'>d</mi></mrow><mo arg='close'>)</mo>
        <mo>)</mo></mrow>
    </math>";
    test("nb", "SimpleSpeak",expr, "det åpne intervallet fra c til d");
}

#[test]
    fn parens_interval_closed_open() {
        let expr = "<math> 
        <mrow intent='closed-open-interval($start, $end)'><mo>[</mo>
            <mrow> <mo arg='open'>[(]</mo><mi arg='start'>c</mi><mo>,</mo><mi arg='end'>d</mi></mrow><mo arg='close'>)</mo>
            <mo>)</mo></mrow>
        </math>";
    test("nb", "SimpleSpeak",expr, "det halvåpne intervallet fra og med c til d");
}


#[test]
fn parens_interval_open_closed() {
    let expr = "<math> 
    <mrow intent='open-closed-interval($start, $end)'><mo>(</mo>
        <mrow> <mo arg='open'>(</mo><mi arg='start'>c</mi><mo>,</mo><mi arg='end'>d</mi></mrow><mo arg='close'>]</mo>
        <mo>]</mo></mrow>
    </math>";
    test("nb", "SimpleSpeak",expr,"det halvåpne intervallet fra c til og med d");
}


#[test]
fn parens_interval_closed_closed() {
    let expr = "<math> 
        <mrow intent='closed-interval($start, $end)'><mo>[</mo>
            <mrow> <mo arg='open'>[(]</mo><mi arg='start'>c</mi><mo>,</mo><mi arg='end'>d</mi></mrow><mo arg='close'>]</mo>
            <mo>]</mo></mrow>
    </math>";
    test("nb", "SimpleSpeak",expr, "det lukkede intervallet fra c til d");
}

    #[test]
    fn parens_interval_neg_infinity_open_open() {
        let expr = "<math> 
        <mrow intent='open-interval($start, $end)'><mo arg='open'>(</mo>
        <mrow><mrow arg='start'><mo>-</mo> <mi>∞</mi></mrow><mo>,</mo><mi arg='end'>d</mi></mrow><mo arg='close'>)</mo>
        <mo>)</mo></mrow>
    </math>";
    test("nb", "SimpleSpeak",expr,
    "det åpne intervallet fra minus uendelig til d");
}

    #[test]
    fn parens_interval_neg_infinity_open_closed() {
        let expr = "<math> 
        <mrow intent='open-closed-interval($start, $end)'><mo arg='open'>(</mo>
        <mrow><mrow arg='start'><mo>-</mo> <mi>∞</mi></mrow><mo>,</mo><mi arg='end'>d</mi></mrow><mo arg='close'>]</mo>
        <mo>]</mo></mrow>
    </math>";
    test("nb", "SimpleSpeak",expr,
    "det halvåpne intervallet fra minus uendelig til og med d");
}

