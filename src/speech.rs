//! Rule matching for speech: each canonical construct is read by the rule for its
//! shape, under the preference snapshot, into a stream of words and pauses.
use vstd::prelude::*;
use crate::expr::{Expr, LeafKind, Times};
use crate::render::{Pause, Token, TokenModel, render, rendered, tokens_view};
use crate::settings::{Ellipses, ImpliedTimes, MultSymbolX, Settings, Style, Verbosity, VerticalLine};
use crate::text::{chars_of, eq_str};

verus! {

/// Why an expression could not be read.
#[derive(Clone, Copy, Debug, PartialEq, Eq, Structural)]
pub enum RuleError {
    /// No rule reads this construct.
    NoApplicableRule,
}

/// Where a construct stands, as far as the rules for brackets care.
#[derive(Clone, Copy, Debug, PartialEq, Eq, Structural)]
pub enum Place {
    Alone,
    SumOperand,
    /// A factor of a product; `true` for the first one.
    Factor(bool),
    /// The argument of a function; `true` when the function carries a script.
    Argument(bool),
    Base,
}

/// The spoken name of a function, by verbosity; `fenced` tells whether its argument
/// was written in parentheses.
pub open spec fn function_phrase(name: Seq<char>, v: Verbosity, fenced: bool) -> Seq<char> {
    if name == "ln"@ {
        if v == Verbosity::Verbose || (v == Verbosity::Medium && fenced) {
            "den naturlige logaritmen"@
        } else {
            "l n"@
        }
    } else if name == "exp"@ {
        if v == Verbosity::Terse { "exp"@ } else { "eksponensialfunksjonen"@ }
    } else if name == "sin"@ {
        "sinus"@
    } else if name == "cos"@ {
        "cosinus"@
    } else if name == "tan"@ {
        "tangens"@
    } else if name == "sec"@ {
        "sekans"@
    } else if name == "csc"@ {
        "cosekans"@
    } else if name == "cot"@ {
        "cotangens"@
    } else if name == "sinh"@ {
        "sinus hyperbolicus"@
    } else if name == "cosh"@ {
        "cosinus hyperbolicus"@
    } else if name == "tanh"@ {
        "tangens hyperbolicus"@
    } else if name == "sech"@ {
        "sekans hyperbolicus"@
    } else if name == "csch"@ {
        "cosekans hyperbolicus"@
    } else if name == "coth"@ {
        "cotangens hyperbolicus"@
    } else {
        name
    }
}

pub fn function_words(name: &Vec<char>, v: Verbosity, fenced: bool) -> (r: Vec<char>)
    ensures
        r@ == function_phrase(name@, v, fenced),
{
    if eq_str(name, "ln") {
        if v == Verbosity::Verbose || (v == Verbosity::Medium && fenced) {
            chars_of("den naturlige logaritmen")
        } else {
            chars_of("l n")
        }
    } else if eq_str(name, "exp") {
        if v == Verbosity::Terse { chars_of("exp") } else { chars_of("eksponensialfunksjonen") }
    } else if eq_str(name, "sin") {
        chars_of("sinus")
    } else if eq_str(name, "cos") {
        chars_of("cosinus")
    } else if eq_str(name, "tan") {
        chars_of("tangens")
    } else if eq_str(name, "sec") {
        chars_of("sekans")
    } else if eq_str(name, "csc") {
        chars_of("cosekans")
    } else if eq_str(name, "cot") {
        chars_of("cotangens")
    } else if eq_str(name, "sinh") {
        chars_of("sinus hyperbolicus")
    } else if eq_str(name, "cosh") {
        chars_of("cosinus hyperbolicus")
    } else if eq_str(name, "tanh") {
        chars_of("tangens hyperbolicus")
    } else if eq_str(name, "sech") {
        chars_of("sekans hyperbolicus")
    } else if eq_str(name, "csch") {
        chars_of("cosekans hyperbolicus")
    } else if eq_str(name, "coth") {
        chars_of("cotangens hyperbolicus")
    } else {
        crate::canon::copy_chars(name)
    }
}

/// For a function with both an abbreviation and a full name (the natural logarithm and
/// the exponential function), terse speech differs from verbose speech. With a
/// parenthesized argument, medium speech coincides with verbose speech and differs from
/// terse speech.
pub proof fn lemma_verbosity_alternation(name: Seq<char>, fenced: bool)
    requires
        name == "ln"@ || name == "exp"@,
    ensures
        function_phrase(name, Verbosity::Terse, fenced) != function_phrase(name, Verbosity::Verbose, fenced),
        fenced ==> function_phrase(name, Verbosity::Medium, fenced) == function_phrase(
            name,
            Verbosity::Verbose,
            fenced,
        ),
        fenced ==> function_phrase(name, Verbosity::Terse, fenced) != function_phrase(
            name,
            Verbosity::Medium,
            fenced,
        ),
{
    reveal_strlit("ln");
    reveal_strlit("exp");
    reveal_strlit("l n");
    reveal_strlit("den naturlige logaritmen");
    reveal_strlit("eksponensialfunksjonen");
    assert("ln"@ != "exp"@) by {
        assert("ln"@.len() != "exp"@.len());
    }
    assert("l n"@ != "den naturlige logaritmen"@) by {
        assert("l n"@.len() != "den naturlige logaritmen"@.len());
    }
    assert("exp"@ != "eksponensialfunksjonen"@) by {
        assert("exp"@.len() != "eksponensialfunksjonen"@.len());
    }
}

/// The readings of a vertical bar between two expressions.
#[derive(Clone, Copy, Debug, PartialEq, Eq, Structural)]
pub enum BarReading {
    Divides,
    Given,
    SuchThat,
}

/// How a bar is read: the preference decides where it names a reading; otherwise a bar
/// between two numbers divides and any other bar is a condition.
pub open spec fn bar_reading(pref: VerticalLine, both_numbers: bool) -> BarReading {
    match pref {
        VerticalLine::Divides => BarReading::Divides,
        VerticalLine::Given => BarReading::Given,
        VerticalLine::SuchThat => BarReading::SuchThat,
        VerticalLine::Auto => if both_numbers { BarReading::Divides } else { BarReading::Given },
    }
}

pub fn choose_bar_reading(pref: VerticalLine, both_numbers: bool) -> (r: BarReading)
    ensures
        r == bar_reading(pref, both_numbers),
{
    match pref {
        VerticalLine::Divides => BarReading::Divides,
        VerticalLine::Given => BarReading::Given,
        VerticalLine::SuchThat => BarReading::SuchThat,
        VerticalLine::Auto => if both_numbers { BarReading::Divides } else { BarReading::Given },
    }
}

/// The pause placed between an operand and the operator phrase after it, from the
/// length of the operand's speech (`before`) and of the phrase (`after`): longer
/// speech before the pause weighs double.
pub open spec fn auto_pause(before: nat, after: nat) -> Option<Pause> {
    if 2 * before + after >= 96 {
        Some(Pause::Long)
    } else if 2 * before + after >= 48 {
        Some(Pause::Short)
    } else {
        None
    }
}

pub fn choose_pause(before: usize, after: usize) -> (r: Option<Pause>)
    ensures
        r == auto_pause(before as nat, after as nat),
{
    if before >= 48 || after >= 96 || 2 * before + after >= 96 {
        Some(Pause::Long)
    } else if 2 * before + after >= 48 {
        Some(Pause::Short)
    } else {
        None
    }
}

/// The four interval readings an author can ask for.
#[derive(Clone, Copy, Debug, PartialEq, Eq, Structural)]
pub enum Interval {
    Open,
    Closed,
    OpenClosed,
    ClosedOpen,
}

pub open spec fn interval_named(name: Seq<char>) -> Option<Interval> {
    if name == "open-interval"@ {
        Some(Interval::Open)
    } else if name == "closed-interval"@ {
        Some(Interval::Closed)
    } else if name == "open-closed-interval"@ {
        Some(Interval::OpenClosed)
    } else if name == "closed-open-interval"@ {
        Some(Interval::ClosedOpen)
    } else {
        None
    }
}

pub fn interval_of(name: &Vec<char>) -> (r: Option<Interval>)
    ensures
        r == interval_named(name@),
{
    if eq_str(name, "open-interval") {
        Some(Interval::Open)
    } else if eq_str(name, "closed-interval") {
        Some(Interval::Closed)
    } else if eq_str(name, "open-closed-interval") {
        Some(Interval::OpenClosed)
    } else if eq_str(name, "closed-open-interval") {
        Some(Interval::ClosedOpen)
    } else {
        None
    }
}

/// The words before the start point, between the two points, and after the end point.
pub open spec fn interval_words(k: Interval) -> (Seq<char>, Seq<char>) {
    match k {
        Interval::Open => ("det åpne intervallet fra"@, "til"@),
        Interval::Closed => ("det lukkede intervallet fra"@, "til"@),
        Interval::OpenClosed => ("det halvåpne intervallet fra"@, "til og med"@),
        Interval::ClosedOpen => ("det halvåpne intervallet fra og med"@, "til"@),
    }
}

/// The reading of an interval: its opening words, the start point, the joining words,
/// the end point.
pub open spec fn interval_reading(k: Interval, start: Seq<TokenModel>, end: Seq<TokenModel>) -> Seq<TokenModel> {
    seq![TokenModel::Word(interval_words(k).0)] + start + seq![TokenModel::Word(interval_words(k).1)] + end
}

/// Reads an interval from the readings of its two points.
pub fn speak_interval(k: Interval, start: Vec<Token>, end: Vec<Token>) -> (r: Vec<Token>)
    ensures
        tokens_view(r@) == interval_reading(k, tokens_view(start@), tokens_view(end@)),
{
    let (open, join) = match k {
        Interval::Open => ("det åpne intervallet fra", "til"),
        Interval::Closed => ("det lukkede intervallet fra", "til"),
        Interval::OpenClosed => ("det halvåpne intervallet fra", "til og med"),
        Interval::ClosedOpen => ("det halvåpne intervallet fra og med", "til"),
    };
    let mut r: Vec<Token> = Vec::new();
    r.push(Token::Word(chars_of(open)));
    let mut start = start;
    let mut end = end;
    let ghost s0 = start@;
    let ghost e0 = end@;
    r.append(&mut start);
    r.push(Token::Word(chars_of(join)));
    r.append(&mut end);
    proof {
        assert(tokens_view(r@) =~= interval_reading(k, tokens_view(s0), tokens_view(e0)));
    }
    r
}

/// The words that stand for an ellipsis in a list: the symbolic reading, or, when the
/// list is read with "and so on" and does not open with an ellipsis, "and so on" at the
/// end of the list and "and so on up to" before a last item.
pub open spec fn ellipsis_phrase(and_so_on: bool, last: bool) -> Seq<char> {
    if !and_so_on {
        "prikk prikk prikk"@
    } else if last {
        "og så videre"@
    } else {
        "og så videre opp til"@
    }
}

pub fn ellipsis_words(and_so_on: bool, last: bool) -> (r: Vec<char>)
    ensures
        r@ == ellipsis_phrase(and_so_on, last),
{
    if !and_so_on {
        chars_of("prikk prikk prikk")
    } else if last {
        chars_of("og så videre")
    } else {
        chars_of("og så videre opp til")
    }
}

fn word(s: &str) -> (r: Token)
    ensures
        r@ == TokenModel::Word(s@),
{
    Token::Word(chars_of(s))
}

pub open spec fn w(s: Seq<char>) -> TokenModel {
    TokenModel::Word(s)
}

pub open spec fn pz(p: Pause) -> TokenModel {
    TokenModel::Pause(p)
}

/// The reading of a result, with tokens seen as their models.
pub open spec fn result_view(r: Result<Vec<Token>, RuleError>) -> Result<Seq<TokenModel>, RuleError> {
    match r {
        Ok(v) => Ok(tokens_view(v@)),
        Err(e) => Err(e),
    }
}

fn append(dst: &mut Vec<Token>, src: Vec<Token>)
    ensures
        tokens_view(final(dst)@) == tokens_view(old(dst)@) + tokens_view(src@),
{
    let mut src = src;
    let ghost a = dst@;
    let ghost b = src@;
    dst.append(&mut src);
    assert(tokens_view(dst@) =~= tokens_view(a) + tokens_view(b));
}

fn push_tok(dst: &mut Vec<Token>, t: Token)
    ensures
        tokens_view(final(dst)@) == tokens_view(old(dst)@).push(t@),
        tokens_view(final(dst)@) == tokens_view(old(dst)@) + seq![t@],
{
    let ghost a = dst@;
    dst.push(t);
    assert(tokens_view(dst@) =~= tokens_view(a).push(t@));
    assert(tokens_view(dst@) =~= tokens_view(a) + seq![t@]);
}

pub open spec fn leaf_sp(e: Expr) -> bool {
    e matches Expr::Leaf(LeafKind::Number, _) || e matches Expr::Leaf(LeafKind::Ident, _)
}

pub open spec fn number_sp(e: Expr) -> bool {
    e matches Expr::Leaf(LeafKind::Number, _)
}

pub open spec fn ellipsis_sp(e: Expr) -> bool {
    match e {
        Expr::Leaf(_, t) => t@.len() == 1 && t@[0] == '…',
        _ => false,
    }
}

pub open spec fn root_sp(e: Expr) -> bool {
    e matches Expr::Sqrt(_) || e matches Expr::Root(_, _)
}

/// Brackets around these are not spoken: a number, a letter, a negative number, a
/// fraction of two numbers.
pub open spec fn simple_sp(e: Expr) -> bool {
    match e {
        Expr::Leaf(LeafKind::Number, _) | Expr::Leaf(LeafKind::Ident, _) => true,
        Expr::Neg(b) => number_sp(*b),
        Expr::Frac(a, b) => number_sp(*a) && number_sp(*b),
        _ => false,
    }
}

/// A product of letters, numbers and negative numbers, possibly negated.
pub open spec fn monomial_sp(e: Expr) -> bool {
    match e {
        Expr::Product(fs, _) => forall|i: int| 0 <= i < fs@.len() ==> #[trigger] leaf_sp(fs@[i]) || simple_sp(fs@[i]),
        Expr::Neg(b) => match *b {
            Expr::Product(fs, _) => forall|i: int| 0 <= i < fs@.len() ==> #[trigger] leaf_sp(fs@[i]) || simple_sp(fs@[i]),
            _ => false,
        },
        _ => false,
    }
}

pub open spec fn silent_fence_sp(e: Expr) -> bool {
    match e {
        Expr::Fenced(_, _, b) => simple_sp(*b),
        _ => false,
    }
}

/// Constructs whose speech joins operands with spoken operators.
pub open spec fn has_operator_sp(e: Expr) -> bool {
    e matches Expr::Sum(_, _) || e matches Expr::Relation(_, _) || e matches Expr::Bar(_, _) || e matches Expr::List(_)
}

fn is_leaf(e: &Expr) -> (r: bool)
    ensures
        r == leaf_sp(*e),
{
    match e {
        Expr::Leaf(LeafKind::Number, _) | Expr::Leaf(LeafKind::Ident, _) => true,
        _ => false,
    }
}

pub fn is_number(e: &Expr) -> (r: bool)
    ensures
        r == number_sp(*e),
{
    match e {
        Expr::Leaf(LeafKind::Number, _) => true,
        _ => false,
    }
}

fn is_ellipsis(e: &Expr) -> (r: bool)
    ensures
        r == ellipsis_sp(*e),
{
    match e {
        Expr::Leaf(_, t) => t.len() == 1 && t[0] == '…',
        _ => false,
    }
}

fn is_root(e: &Expr) -> (r: bool)
    ensures
        r == root_sp(*e),
{
    match e {
        Expr::Sqrt(_) | Expr::Root(_, _) => true,
        _ => false,
    }
}

fn is_simple(e: &Expr) -> (r: bool)
    ensures
        r == simple_sp(*e),
{
    match e {
        Expr::Leaf(LeafKind::Number, _) | Expr::Leaf(LeafKind::Ident, _) => true,
        Expr::Neg(b) => is_number(b),
        Expr::Frac(a, b) => is_number(a) && is_number(b),
        _ => false,
    }
}

fn all_plain(fs: &Vec<Expr>) -> (r: bool)
    ensures
        r == forall|i: int| 0 <= i < fs@.len() ==> #[trigger] leaf_sp(fs@[i]) || simple_sp(fs@[i]),
{
    let mut i: usize = 0;
    while i < fs.len()
        invariant
            i <= fs@.len(),
            forall|k: int| 0 <= k < i ==> #[trigger] leaf_sp(fs@[k]) || simple_sp(fs@[k]),
        decreases fs.len() - i,
    {
        if !is_leaf(&fs[i]) && !is_simple(&fs[i]) {
            return false;
        }
        i = i + 1;
    }
    true
}

fn is_monomial(e: &Expr) -> (r: bool)
    ensures
        r == monomial_sp(*e),
{
    match e {
        Expr::Product(fs, _) => all_plain(fs),
        Expr::Neg(b) => match &**b {
            Expr::Product(fs, _) => all_plain(fs),
            _ => false,
        },
        _ => false,
    }
}

fn is_silent_fence(e: &Expr) -> (r: bool)
    ensures
        r == silent_fence_sp(*e),
{
    match e {
        Expr::Fenced(_, _, b) => is_simple(b),
        _ => false,
    }
}

fn has_operator(e: &Expr) -> (r: bool)
    ensures
        r == has_operator_sp(*e),
{
    match e {
        Expr::Sum(_, _) | Expr::Relation(_, _) | Expr::Bar(_, _) | Expr::List(_) => true,
        _ => false,
    }
}

/// The length of the spoken text of a token stream.
pub open spec fn spoken_length(ts: Seq<TokenModel>) -> nat {
    rendered(ts).len()
}

fn spoken_len(ts: &Vec<Token>) -> (r: usize)
    ensures
        r == spoken_length(tokens_view(ts@)),
{
    render(ts).len()
}

pub open spec fn lower_letter(c: char) -> char {
    "abcdefghijklmnopqrstuvwxyz"@[c as int - 'A' as int]
}

/// The lower-case letter of an upper-case ASCII letter.
fn lower_of(c: char) -> (r: char)
    requires
        'A' <= c <= 'Z',
    ensures
        r == lower_letter(c),
{
    let letters = chars_of("abcdefghijklmnopqrstuvwxyz");
    proof {
        reveal_strlit("abcdefghijklmnopqrstuvwxyz");
    }
    let k = (c as u32 - 'A' as u32) as usize;
    letters[k]
}

/// The spoken name of a single symbol, if it has one.
pub open spec fn symbol_spoken(c: char) -> Option<Seq<char>> {
    if c == 'α' { Some("alfa"@) }
    else if c == 'β' { Some("beta"@) }
    else if c == 'γ' { Some("gamma"@) }
    else if c == 'δ' { Some("delta"@) }
    else if c == 'ε' { Some("epsilon"@) }
    else if c == 'θ' { Some("theta"@) }
    else if c == 'λ' { Some("lambda"@) }
    else if c == 'μ' { Some("my"@) }
    else if c == 'π' { Some("pi"@) }
    else if c == 'σ' { Some("sigma"@) }
    else if c == 'ϕ' || c == 'φ' { Some("fi"@) }
    else if c == 'ω' { Some("omega"@) }
    else if c == '∞' { Some("uendelig"@) }
    else if c == '…' { Some("prikk prikk prikk"@) }
    else if c == '+' { Some("pluss"@) }
    else if c == '-' || c == '−' { Some("minus"@) }
    else if c == '=' { Some("er lik"@) }
    else if c == ',' { Some("komma"@) }
    else if c == '|' { Some("loddrett strek"@) }
    else { None }
}

fn symbol_name(c: char) -> (r: Option<&'static str>)
    ensures
        match r {
            Some(n) => symbol_spoken(c) == Some(n@),
            None => symbol_spoken(c) is None,
        },
{
    if c == 'α' { Some("alfa") }
    else if c == 'β' { Some("beta") }
    else if c == 'γ' { Some("gamma") }
    else if c == 'δ' { Some("delta") }
    else if c == 'ε' { Some("epsilon") }
    else if c == 'θ' { Some("theta") }
    else if c == 'λ' { Some("lambda") }
    else if c == 'μ' { Some("my") }
    else if c == 'π' { Some("pi") }
    else if c == 'σ' { Some("sigma") }
    else if c == 'ϕ' || c == 'φ' { Some("fi") }
    else if c == 'ω' { Some("omega") }
    else if c == '∞' { Some("uendelig") }
    else if c == '…' { Some("prikk prikk prikk") }
    else if c == '+' { Some("pluss") }
    else if c == '-' || c == '−' { Some("minus") }
    else if c == '=' { Some("er lik") }
    else if c == ',' { Some("komma") }
    else if c == '|' { Some("loddrett strek") }
    else { None }
}

pub open spec fn is_bracket(c: char) -> bool {
    c == '(' || c == ')' || c == '[' || c == ']' || c == '{' || c == '}'
}

/// Reads a leaf: numbers as written, capitals as "stor" and the letter, named symbols
/// by name, function names by their spoken name; a bracket left on its own has no rule.
pub open spec fn leaf_reading(kind: LeafKind, t: Seq<char>, v: Verbosity) -> Result<Seq<TokenModel>, RuleError> {
    if kind == LeafKind::Number {
        Ok(seq![w(t)])
    } else if t.len() == 1 && kind == LeafKind::Operator && is_bracket(t[0]) {
        Err(RuleError::NoApplicableRule)
    } else if t.len() == 1 && 'A' <= t[0] <= 'Z' {
        Ok(seq![w("stor"@), w(seq![lower_letter(t[0])])])
    } else if t.len() == 1 && symbol_spoken(t[0]) is Some {
        Ok(seq![w(symbol_spoken(t[0])->Some_0)])
    } else if t == "Cov"@ {
        Ok(seq![w("kovarians"@)])
    } else {
        Ok(seq![w(function_phrase(t, v, false))])
    }
}

fn speak_leaf(kind: LeafKind, t: &Vec<char>, s: &Settings) -> (r: Result<Vec<Token>, RuleError>)
    ensures
        result_view(r) == leaf_reading(kind, t@, s.verbosity),
{
    let mut r: Vec<Token> = Vec::new();
    if kind == LeafKind::Number {
        push_tok(&mut r, Token::Word(crate::canon::copy_chars(t)));
        assert(tokens_view(r@) =~= seq![w(t@)]);
        return Ok(r);
    }
    if t.len() == 1 {
        let c = t[0];
        if kind == LeafKind::Operator && (c == '(' || c == ')' || c == '[' || c == ']' || c == '{'
            || c == '}') {
            return Err(RuleError::NoApplicableRule);
        }
        if 'A' <= c && c <= 'Z' {
            push_tok(&mut r, word("stor"));
            let mut l: Vec<char> = Vec::new();
            l.push(lower_of(c));
            push_tok(&mut r, Token::Word(l));
            assert(tokens_view(r@) =~= seq![w("stor"@), w(seq![lower_letter(t@[0])])]);
            return Ok(r);
        }
        match symbol_name(c) {
            Some(n) => {
                push_tok(&mut r, word(n));
                assert(tokens_view(r@) =~= seq![w(n@)]);
                return Ok(r);
            },
            None => {},
        }
    }
    if eq_str(t, "Cov") {
        push_tok(&mut r, word("kovarians"));
        assert(tokens_view(r@) =~= seq![w("kovarians"@)]);
    } else {
        push_tok(&mut r, Token::Word(function_words(t, s.verbosity, false)));
        assert(tokens_view(r@) =~= seq![w(function_phrase(t@, s.verbosity, false))]);
    }
    Ok(r)
}

pub open spec fn bracket_phrases(o: char) -> (Seq<char>, Seq<char>) {
    if o == '[' {
        ("start hakeparentes"@, "slutt hakeparentes"@)
    } else if o == '{' {
        ("start krøllparentes"@, "slutt krøllparentes"@)
    } else {
        ("startparentes"@, "sluttparentes"@)
    }
}

fn bracket_words(o: char) -> (r: (&'static str, &'static str))
    ensures
        (r.0@, r.1@) == bracket_phrases(o),
{
    if o == '[' {
        ("start hakeparentes", "slutt hakeparentes")
    } else if o == '{' {
        ("start krøllparentes", "slutt krøllparentes")
    } else {
        ("startparentes", "sluttparentes")
    }
}

pub open spec fn operator_phrase(c: char) -> Seq<char> {
    if c == '+' { "pluss"@ }
    else if c == '±' { "pluss minus"@ }
    else if c == '-' || c == '−' { "minus"@ }
    else if c == '=' { "er lik"@ }
    else if c == '>' { "er større enn"@ }
    else if c == '<' { "er mindre enn"@ }
    else if c == '≤' { "er mindre enn eller lik"@ }
    else if c == '≥' { "er større enn eller lik"@ }
    else if c == '≠' { "er ikke lik"@ }
    else { ""@ }
}

fn operator_words(c: char) -> (r: &'static str)
    ensures
        r@ == operator_phrase(c),
{
    if c == '+' { "pluss" }
    else if c == '±' { "pluss minus" }
    else if c == '-' || c == '−' { "minus" }
    else if c == '=' { "er lik" }
    else if c == '>' { "er større enn" }
    else if c == '<' { "er mindre enn" }
    else if c == '≤' { "er mindre enn eller lik" }
    else if c == '≥' { "er større enn eller lik" }
    else if c == '≠' { "er ikke lik" }
    else { "" }
}

fn copy_tokens(v: &Vec<Token>) -> (r: Vec<Token>)
    ensures
        tokens_view(r@) == tokens_view(v@),
{
    let mut r: Vec<Token> = Vec::new();
    let mut i: usize = 0;
    while i < v.len()
        invariant
            i <= v@.len(),
            tokens_view(r@) == tokens_view(v@.subrange(0, i as int)),
        decreases v.len() - i,
    {
        let t = match &v[i] {
            Token::Word(x) => Token::Word(crate::canon::copy_chars(x)),
            Token::Pause(p) => Token::Pause(*p),
        };
        push_tok(&mut r, t);
        i = i + 1;
        assert(tokens_view(r@) =~= tokens_view(v@.subrange(0, i as int)));
    }
    assert(v@.subrange(0, v@.len() as int) =~= v@);
    r
}

pub open spec fn parts_view(v: Seq<Vec<Token>>) -> Seq<Seq<TokenModel>> {
    v.map_values(|p: Vec<Token>| tokens_view(p@))
}

/// The readings of the operands from position `i` on.
pub open spec fn readings(xs: Vec<Expr>, s: Settings, place: Place, i: int) -> Result<Seq<Seq<TokenModel>>, RuleError>
    decreases xs, xs@.len() - i,
{
    if i < 0 || i >= xs@.len() {
        Ok(Seq::empty())
    } else {
        match reading(xs@[i], s, place) {
            Err(e) => Err(e),
            Ok(t) => match readings(xs, s, place, i + 1) {
                Err(e) => Err(e),
                Ok(rest) => Ok(seq![t] + rest),
            },
        }
    }
}

/// The combined length of the first `i` readings, capped at `LONG_CHAIN`.
pub open spec fn capped_total(parts: Seq<Seq<TokenModel>>, i: int) -> int
    decreases i,
{
    if i <= 0 || i > parts.len() {
        0
    } else {
        let t = capped_total(parts, i - 1);
        let n = spoken_length(parts[i - 1]);
        if n >= LONG_CHAIN - t { LONG_CHAIN as int } else { t + n }
    }
}

/// A chain whose operands' speech together reaches this length is long.
pub const LONG_CHAIN: usize = 120;

/// The chain from operand `i` on: each operand after the first is preceded by its
/// operator phrase, and the automatic pause for the operand before and that phrase.
pub open spec fn chain_from(parts: Seq<Seq<TokenModel>>, ops: Seq<char>, relation: bool, breath: bool, i: int) -> Seq<TokenModel>
    decreases parts.len() - i,
{
    if i < 0 || i >= parts.len() {
        Seq::empty()
    } else if i == 0 {
        parts[0] + chain_from(parts, ops, relation, breath, 1)
    } else {
        chain_pause(parts, ops, relation, breath, i) + chain_phrase(parts, ops, relation, breath, i)
            + chain_from(parts, ops, relation, breath, i + 1)
    }
}

/// Operand `i` after the first with its operator phrase before it.
pub open spec fn chain_phrase(parts: Seq<Seq<TokenModel>>, ops: Seq<char>, relation: bool, breath: bool, i: int) -> Seq<TokenModel> {
    let c = if i - 1 < ops.len() { ops[i - 1] } else { '+' };
    let x = parts[i];
    if (relation && spoken_length(x) >= 24) || (breath && i == parts.len() / 2) {
        seq![w(operator_phrase(c)), pz(Pause::Short)] + x
    } else {
        seq![w(operator_phrase(c))] + x
    }
}

/// The automatic pause between operand `i - 1` and the phrase of operand `i`.
pub open spec fn chain_pause(parts: Seq<Seq<TokenModel>>, ops: Seq<char>, relation: bool, breath: bool, i: int) -> Seq<TokenModel> {
    match auto_pause(spoken_length(parts[i - 1]), spoken_length(chain_phrase(parts, ops, relation, breath, i))) {
        Some(p) => seq![pz(p)],
        None => Seq::empty(),
    }
}

/// A chain of operands joined by operators. A long sum of six or more operands is
/// spoken in two breaths: a pause follows the operator before its middle operand.
pub open spec fn chain_reading(xs: Vec<Expr>, ops: Seq<char>, s: Settings, place: Place, relation: bool) -> Result<Seq<TokenModel>, RuleError>
    decreases xs, xs@.len() + 1,
{
    match readings(xs, s, place, 0) {
        Err(e) => Err(e),
        Ok(parts) => {
            let n = parts.len();
            let breath = !relation && n >= 6 && capped_total(parts, n as int) >= LONG_CHAIN;
            Ok(chain_from(parts, ops, relation, breath, 0))
        },
    }
}

/// A list from item `i` on: each item after the first preceded by "komma" and a pause;
/// an ellipsis read by `ellipsis_phrase`, and where it reads "and so on" the comma before
/// it is not spoken and only a pause follows it.
pub open spec fn list_from(xs: Vec<Expr>, s: Settings, and_so_on: bool, i: int, after: bool) -> Result<Seq<TokenModel>, RuleError>
    decreases xs, xs@.len() - i,
{
    if i < 0 || i >= xs@.len() {
        Ok(Seq::empty())
    } else {
        let ell = ellipsis_sp(xs@[i]);
        let sep = if i == 0 {
            Seq::empty()
        } else if and_so_on && ell {
            Seq::empty()
        } else if after {
            seq![pz(Pause::Short)]
        } else {
            seq![w("komma"@), pz(Pause::Short)]
        };
        let item = if ell {
            Ok(seq![w(ellipsis_phrase(and_so_on && i > 0, i + 1 == xs@.len()))])
        } else {
            reading(xs@[i], s, Place::Alone)
        };
        match item {
            Err(e) => Err(e),
            Ok(t) => match list_from(xs, s, and_so_on, i + 1, ell && and_so_on && i > 0) {
                Err(e) => Err(e),
                Ok(rest) => Ok(sep + t + rest),
            },
        }
    }
}

/// What joins factor `i` to the one before it.
pub open spec fn product_joint(xs: Seq<Expr>, joins: Seq<Times>, s: Settings, i: int) -> Seq<TokenModel> {
    if i <= 0 || i >= xs.len() {
        Seq::empty()
    } else {
        let j = if i - 1 < joins.len() { joins[i - 1] } else { Times::Implicit };
        match j {
            Times::Sign => seq![w(if s.mult_x == MultSymbolX::Cross { "kryss"@ } else { "ganger"@ })],
            Times::Implicit => {
                let left = xs[i - 1];
                let right = xs[i];
                let voiced = s.implied_times != ImpliedTimes::Silent && (s.implied_times
                    == ImpliedTimes::More || silent_fence_sp(left) || silent_fence_sp(right) || (
                root_sp(left) && root_sp(right)));
                if voiced {
                    (if root_sp(left) { seq![pz(Pause::Long)] } else { Seq::empty() }) + seq![w("ganger"@)]
                } else {
                    Seq::empty()
                }
            },
        }
    }
}

/// A product from factor `i` on: a written sign read "ganger" (or "kryss" when asked
/// for), an implicit product silently unless brackets were dropped around a factor or
/// two roots meet.
pub open spec fn product_from(xs: Vec<Expr>, joins: Seq<Times>, s: Settings, i: int) -> Result<Seq<TokenModel>, RuleError>
    decreases xs, xs@.len() - i,
{
    if i < 0 || i >= xs@.len() {
        Ok(Seq::empty())
    } else {
        match reading(xs@[i], s, Place::Factor(i == 0)) {
            Err(e) => Err(e),
            Ok(t) => match product_from(xs, joins, s, i + 1) {
                Err(e) => Err(e),
                Ok(rest) => Ok(product_joint(xs@, joins, s, i) + t + rest),
            },
        }
    }
}

/// An exponent: "i andre" and "i tredje" for 2 and 3, else "opphøyd i" and the
/// exponent, followed by a pause.
pub open spec fn power_reading(x: Expr, s: Settings) -> Result<Seq<TokenModel>, RuleError>
    decreases x, 3int,
{
    match x {
        Expr::Leaf(LeafKind::Number, d) if d@ == "2"@ => Ok(seq![w("i andre"@)]),
        Expr::Leaf(LeafKind::Number, d) if d@ == "3"@ => Ok(seq![w("i tredje"@)]),
        _ => match reading(x, s, Place::Alone) {
            Err(e) => Err(e),
            Ok(p) => Ok(seq![w("opphøyd i"@)] + p + seq![pz(Pause::Short)]),
        },
    }
}

/// A function name with its script, before "av".
pub open spec fn function_reading(f: Expr, s: Settings, fenced: bool) -> Result<Seq<TokenModel>, RuleError>
    decreases f, 3int,
{
    match f {
        Expr::Leaf(LeafKind::Ident, t) if crate::canon::function_name(t@) => Ok(
            seq![w(function_phrase(t@, s.verbosity, fenced))],
        ),
        Expr::Sup(b, x) if (*b) matches Expr::Leaf(LeafKind::Ident, _) => {
            let name = function_phrase((*b)->Leaf_1@, s.verbosity, fenced);
            if (*x) matches Expr::Neg(one) && (*one) matches Expr::Leaf(LeafKind::Number, d) && d@ == "1"@ {
                Ok(seq![w("invers"@), w(name)])
            } else {
                match power_reading(*x, s) {
                    Err(e) => Err(e),
                    Ok(p) => Ok(seq![w(name)] + p),
                }
            }
        },
        Expr::Sub(b, x) if (*b) matches Expr::Leaf(LeafKind::Ident, t) && t@ == "log"@ => match reading(*x, s, Place::Alone) {
            Err(e) => Err(e),
            Ok(p) => Ok(seq![w("logaritmen med grunntall"@)] + p + seq![pz(Pause::Short)]),
        },
        _ => reading(f, s, Place::Alone),
    }
}

/// The word for a fraction of two numbers with a small denominator.
pub open spec fn fraction_part(n: Seq<char>, d: Seq<char>) -> Option<Seq<char>> {
    let one = n == "1"@;
    if d == "2"@ {
        Some(if one { "halv"@ } else { "halve"@ })
    } else if d == "3"@ {
        Some(if one { "tredjedel"@ } else { "tredjedeler"@ })
    } else if d == "4"@ {
        Some(if one { "fjerdedel"@ } else { "fjerdedeler"@ })
    } else {
        None
    }
}

pub open spec fn fraction_reading(e: Expr, s: Settings) -> Result<Seq<TokenModel>, RuleError>
    decreases e, 1int,
{
    match e {
        Expr::Frac(a, b) => {
            if (*a) matches Expr::Leaf(LeafKind::Number, n) && (*b) matches Expr::Leaf(LeafKind::Number, d) && fraction_part(n@, d@) is Some {
                Ok(seq![w((*a)->Leaf_1@), w(fraction_part((*a)->Leaf_1@, (*b)->Leaf_1@)->Some_0)])
            } else {
                let plain = leaf_sp(*a) && leaf_sp(*b);
                match reading(*a, s, Place::Alone) {
                    Err(e) => Err(e),
                    Ok(pa) => match reading(*b, s, Place::Alone) {
                        Err(e) => Err(e),
                        Ok(pb) => Ok((if plain { Seq::empty() } else { seq![w("brøk"@), pz(Pause::Short)] }) + pa + seq![w("over"@)] + pb + (if plain { Seq::empty() } else { seq![pz(Pause::Short), w("slutt brøk"@)] })),
                    },
                }
            }
        },
        _ => Err(RuleError::NoApplicableRule),
    }
}

pub open spec fn dashes_to_spaces(name: Seq<char>) -> Seq<char> {
    name.map_values(|c: char| if c == '-' { ' ' } else { c })
}

/// The arguments of an intent from position `k` on, the first after "av", the others
/// after "komma".
pub open spec fn intent_args_from(args: Vec<Expr>, s: Settings, k: int) -> Result<Seq<TokenModel>, RuleError>
    decreases args, args@.len() - k,
{
    if k < 0 || k >= args@.len() {
        Ok(Seq::empty())
    } else {
        match reading(args@[k], s, Place::Alone) {
            Err(e) => Err(e),
            Ok(p) => match intent_args_from(args, s, k + 1) {
                Err(e) => Err(e),
                Ok(rest) => Ok(seq![w(if k == 0 { "av"@ } else { "komma"@ })] + p + rest),
            },
        }
    }
}

/// An author's intent: an interval by its template, whatever the notation inside it;
/// any other intent as its name followed by its arguments.
pub open spec fn intent_reading(name: Seq<char>, args: Vec<Expr>, s: Settings) -> Result<Seq<TokenModel>, RuleError>
    decreases args, args@.len() + 1,
{
    if args@.len() == 2 && interval_named(name) is Some {
        match reading(args@[0], s, Place::Alone) {
            Err(e) => Err(e),
            Ok(a) => match reading(args@[1], s, Place::Alone) {
                Err(e) => Err(e),
                Ok(b) => Ok(interval_reading(interval_named(name)->Some_0, a, b)),
            },
        }
    } else {
        match intent_args_from(args, s, 0) {
            Err(e) => Err(e),
            Ok(rest) => Ok(seq![w(dashes_to_spaces(name))] + rest),
        }
    }
}

/// Wraps a reading: the tokens before, the reading, the tokens after.
pub open spec fn around(pre: Seq<TokenModel>, r: Result<Seq<TokenModel>, RuleError>, post: Seq<TokenModel>) -> Result<Seq<TokenModel>, RuleError> {
    match r {
        Err(e) => Err(e),
        Ok(t) => Ok(pre + t + post),
    }
}

pub open spec fn fenced_reading(e: Expr, s: Settings, place: Place) -> Result<Seq<TokenModel>, RuleError>
    decreases e, 1int,
{
    match e {
        Expr::Fenced(o, _, b) => {
            if o == '{' && (*b) matches Expr::Bar(_, _) {
                match reading(*((*b)->Bar_0), s, Place::Alone) {
                    Err(e) => Err(e),
                    Ok(l) => around(seq![w("mengden av alle"@)] + l + seq![w("slik at"@)], reading(*((*b)->Bar_1), s, Place::Alone), Seq::empty()),
                }
            } else if simple_sp(*b) {
                reading(*b, s, Place::Alone)
            } else if place == Place::SumOperand && monomial_sp(*b) {
                around(Seq::empty(), reading(*b, s, Place::Alone), seq![pz(Pause::Short)])
            } else {
                let lead = match place {
                    Place::Factor(false) | Place::Argument(true) => Pause::Long,
                    _ => Pause::Short,
                };
                let close = if has_operator_sp(*b) { Pause::Long } else { Pause::Short };
                around(
                    seq![pz(lead), w(bracket_phrases(o).0), pz(Pause::Long)],
                    reading(*b, s, Place::Alone),
                    seq![pz(close), w(bracket_phrases(o).1)],
                )
            }
        },
        _ => Err(RuleError::NoApplicableRule),
    }
}

pub open spec fn apply_reading(e: Expr, s: Settings, place: Place) -> Result<Seq<TokenModel>, RuleError>
    decreases e, 1int,
{
    match e {
        Expr::Apply(f, x) => {
            let fenced = (*x) matches Expr::Fenced('(', _, _);
            let scripted = (*f) matches Expr::Sup(_, _) || (*f) matches Expr::Sub(_, _);
            match function_reading(*f, s, fenced) {
                Err(e) => Err(e),
                Ok(p) => around(p + seq![w("av"@)], reading(*x, s, Place::Argument(scripted)), Seq::empty()),
            }
        },
        _ => Err(RuleError::NoApplicableRule),
    }
}

pub open spec fn bar_reading_of(e: Expr, s: Settings, place: Place) -> Result<Seq<TokenModel>, RuleError>
    decreases e, 1int,
{
    match e {
        Expr::Bar(l, x) => {
            let joint = match bar_reading(s.vertical_line, number_sp(*l) && number_sp(*x)) {
                BarReading::Divides => seq![w("deler"@)],
                BarReading::Given => seq![pz(Pause::Short), w("gitt"@)],
                BarReading::SuchThat => seq![w("slik at"@)],
            };
            match reading(*l, s, Place::Alone) {
                Err(e) => Err(e),
                Ok(a) => around(a + joint, reading(*x, s, Place::Alone), Seq::empty()),
            }
        },
        _ => Err(RuleError::NoApplicableRule),
    }
}

pub open spec fn evaluated_reading(e: Expr, s: Settings, place: Place) -> Result<Seq<TokenModel>, RuleError>
    decreases e, 1int,
{
    match e {
        Expr::EvalAt(b, lo, hi) => match reading(*b, s, Place::Alone) {
            Err(e) => Err(e),
            Ok(p) => match reading(*lo, s, Place::Alone) {
                Err(e) => Err(e),
                Ok(low) => match hi {
                    None => Ok(p + seq![w("evaluert i"@)] + low),
                    Some(h) => match reading(*h, s, Place::Alone) {
                        Err(e) => Err(e),
                        Ok(high) => Ok(p + seq![pz(Pause::Short), w("evaluert for øvre verdi"@), pz(Pause::Short)] + high + seq![pz(Pause::Short), w("og nedre verdi"@), pz(Pause::Short)] + low),
                    },
                },
            },
        },
        _ => Err(RuleError::NoApplicableRule),
    }
}

/// The speech of a canonical expression under a preference snapshot, at a place.
pub open spec fn reading(e: Expr, s: Settings, place: Place) -> Result<Seq<TokenModel>, RuleError>
    decreases e, 2int,
{
    match e {
        Expr::Empty => Ok(Seq::empty()),
        Expr::Leaf(k, t) => leaf_reading(k, t@, s.verbosity),
        Expr::Fenced(_, _, _) => fenced_reading(e, s, place),
        Expr::Abs(b) => around(seq![w("absoluttverdien av"@)], reading(*b, s, Place::Alone), seq![pz(Pause::Long)]),
        Expr::Neg(b) => around(seq![w("minus"@)], reading(*b, s, Place::Alone), Seq::empty()),
        Expr::Sum(xs, ops) => chain_reading(xs, ops@, s, Place::SumOperand, false),
        Expr::Relation(xs, ops) => chain_reading(xs, ops@, s, Place::Alone, true),
        Expr::Product(xs, joins) => product_from(xs, joins@, s, 0),
        Expr::Apply(_, _) => apply_reading(e, s, place),
        Expr::Bar(_, _) => bar_reading_of(e, s, place),
        Expr::List(xs) => {
            let and_so_on = s.ellipses == Ellipses::AndSoOn && xs@.len() > 0 && !ellipsis_sp(xs@[0]);
            list_from(xs, s, and_so_on, 0, false)
        },
        Expr::Frac(_, _) => fraction_reading(e, s),
        Expr::Sqrt(b) => around(
            seq![w("kvadratroten av"@)],
            reading(*b, s, Place::Alone),
            if leaf_sp(*b) { Seq::empty() } else { seq![pz(Pause::Short), w("slutt rot"@)] },
        ),
        Expr::Root(b, idx) => {
            let cube = (*idx) matches Expr::Leaf(LeafKind::Number, d) && d@ == "3"@;
            let post = if leaf_sp(*b) { Seq::empty() } else { seq![pz(Pause::Short), w("slutt rot"@)] };
            if cube {
                around(seq![w("kubikkroten av"@)], reading(*b, s, Place::Alone), post)
            } else {
                match reading(*idx, s, Place::Alone) {
                    Err(e) => Err(e),
                    Ok(i) => around(seq![w("roten av grad"@)] + i + seq![w("av"@)], reading(*b, s, Place::Alone), post),
                }
            }
        },
        Expr::Sup(b, x) => match reading(*b, s, Place::Base) {
            Err(e) => Err(e),
            Ok(p) => around(p, power_reading(*x, s), Seq::empty()),
        },
        Expr::Sub(b, x) => match reading(*b, s, Place::Base) {
            Err(e) => Err(e),
            Ok(p) => around(p + seq![w("med indeks"@)], reading(*x, s, Place::Alone), seq![pz(Pause::Short)]),
        },
        Expr::SubSup(b, x, y) => match reading(*b, s, Place::Base) {
            Err(e) => Err(e),
            Ok(p) => match reading(*x, s, Place::Alone) {
                Err(e) => Err(e),
                Ok(q) => around(p + seq![w("med indeks"@)] + q, power_reading(*y, s), Seq::empty()),
            },
        },
        Expr::EvalAt(_, _, _) => evaluated_reading(e, s, place),
        Expr::Intent(name, args) => intent_reading(name@, args, s),
    }
}

/// Reads each operand from position `i` on.
fn speak_each(xs: &Vec<Expr>, s: &Settings, place: Place, i: usize) -> (r: Result<Vec<Vec<Token>>, RuleError>)
    requires
        i <= xs@.len(),
    ensures
        match r {
            Ok(v) => readings(*xs, *s, place, i as int) == Ok::<Seq<Seq<TokenModel>>, RuleError>(parts_view(v@)),
            Err(e) => readings(*xs, *s, place, i as int) == Err::<Seq<Seq<TokenModel>>, RuleError>(e),
        },
    decreases xs, xs@.len() - i,
{
    if i >= xs.len() {
        let v: Vec<Vec<Token>> = Vec::new();
        assert(parts_view(v@) =~= Seq::empty());
        return Ok(v);
    }
    let t = match speak(&xs[i], s, place) {
        Ok(t) => t,
        Err(e) => {
            return Err(e);
        },
    };
    match speak_each(xs, s, place, i + 1) {
        Ok(rest) => {
            let mut v = rest;
            let ghost old_v = v@;
            let ghost tv = tokens_view(t@);
            v.insert(0, t);
            assert(parts_view(v@) =~= seq![tv] + parts_view(old_v));
            Ok(v)
        },
        Err(e) => Err(e),
    }
}

/// The combined length of the operands' speech, capped at `LONG_CHAIN`.
fn chain_len(parts: &Vec<Vec<Token>>) -> (r: usize)
    ensures
        r == capped_total(parts_view(parts@), parts@.len() as int),
{
    let ghost pv = parts_view(parts@);
    let mut total: usize = 0;
    let mut i: usize = 0;
    while i < parts.len()
        invariant
            i <= parts@.len(),
            pv == parts_view(parts@),
            total == capped_total(pv, i as int),
            total <= LONG_CHAIN,
        decreases parts.len() - i,
    {
        let n = spoken_len(&parts[i]);
        assert(pv[i as int] == tokens_view(parts@[i as int]@));
        total = if n >= LONG_CHAIN - total { LONG_CHAIN } else { total + n };
        i = i + 1;
    }
    total
}

/// Joins the readings of a chain from position `i` on.
fn join_chain(parts: &Vec<Vec<Token>>, ops: &Vec<char>, relation: bool, breath: bool, i: usize) -> (r: Vec<Token>)
    requires
        i <= parts@.len(),
    ensures
        tokens_view(r@) == chain_from(parts_view(parts@), ops@, relation, breath, i as int),
    decreases parts@.len() - i,
{
    let ghost pv = parts_view(parts@);
    let n = parts.len();
    if i >= n {
        return no_tokens();
    }
    let mut out: Vec<Token> = Vec::new();
    let x = copy_tokens(&parts[i]);
    assert(tokens_view(x@) == pv[i as int]);
    if i == 0 {
        append(&mut out, x);
        assert(tokens_view(out@) =~= pv[0]);
    } else {
        let c = if i - 1 < ops.len() { ops[i - 1] } else { '+' };
        let mut phrase: Vec<Token> = Vec::new();
        push_tok(&mut phrase, word(operator_words(c)));
        if (relation && spoken_len(&x) >= 24) || (breath && i == n / 2) {
            push_tok(&mut phrase, Token::Pause(Pause::Short));
        }
        append(&mut phrase, x);
        assert(tokens_view(phrase@) =~= chain_phrase(pv, ops@, relation, breath, i as int));
        assert(tokens_view(parts@[i - 1]@) == pv[i - 1]);
        match choose_pause(spoken_len(&parts[i - 1]), spoken_len(&phrase)) {
            Some(p) => push_tok(&mut out, Token::Pause(p)),
            None => {},
        }
        assert(tokens_view(out@) =~= chain_pause(pv, ops@, relation, breath, i as int));
        append(&mut out, phrase);
    }
    let rest = join_chain(parts, ops, relation, breath, i + 1);
    append(&mut out, rest);
    out
}

fn speak_chain(xs: &Vec<Expr>, ops: &Vec<char>, s: &Settings, place: Place, relation: bool)
    -> (r: Result<Vec<Token>, RuleError>)
    ensures
        result_view(r) == chain_reading(*xs, ops@, *s, place, relation),
    decreases xs, xs@.len() + 1,
{
    let parts = match speak_each(xs, s, place, 0) {
        Ok(p) => p,
        Err(e) => {
            return Err(e);
        },
    };
    let n = parts.len();
    let breath = !relation && n >= 6 && chain_len(&parts) >= LONG_CHAIN;
    Ok(join_chain(&parts, ops, relation, breath, 0))
}

fn speak_list_from(xs: &Vec<Expr>, s: &Settings, and_so_on: bool, i: usize, after: bool) -> (r: Result<Vec<Token>, RuleError>)
    requires
        i <= xs@.len(),
    ensures
        result_view(r) == list_from(*xs, *s, and_so_on, i as int, after),
    decreases xs, xs@.len() - i,
{
    let n = xs.len();
    if i >= n {
        return Ok(no_tokens());
    }
    let ell = is_ellipsis(&xs[i]);
    let mut out: Vec<Token> = Vec::new();
    if i > 0 {
        if and_so_on && ell {
        } else if after {
            push_tok(&mut out, Token::Pause(Pause::Short));
        } else {
            push_tok(&mut out, word("komma"));
            push_tok(&mut out, Token::Pause(Pause::Short));
        }
    }
    if ell {
        push_tok(&mut out, Token::Word(ellipsis_words(and_so_on && i > 0, i + 1 == n)));
    } else {
        match speak(&xs[i], s, Place::Alone) {
            Ok(t) => append(&mut out, t),
            Err(e) => {
                return Err(e);
            },
        }
    }
    match speak_list_from(xs, s, and_so_on, i + 1, ell && and_so_on && i > 0) {
        Ok(rest) => {
            append(&mut out, rest);
            proof {
                let sp = list_from(*xs, *s, and_so_on, i as int, after);
                assert(sp is Ok);
                assert(tokens_view(out@) =~= sp->Ok_0);
            }
            Ok(out)
        },
        Err(e) => Err(e),
    }
}

fn speak_product_from(xs: &Vec<Expr>, joins: &Vec<Times>, s: &Settings, i: usize) -> (r: Result<Vec<Token>, RuleError>)
    requires
        i <= xs@.len(),
    ensures
        result_view(r) == product_from(*xs, joins@, *s, i as int),
    decreases xs, xs@.len() - i,
{
    if i >= xs.len() {
        return Ok(no_tokens());
    }
    let mut out: Vec<Token> = Vec::new();
    if i > 0 {
        let j = if i - 1 < joins.len() { joins[i - 1] } else { Times::Implicit };
        match j {
            Times::Sign => {
                push_tok(&mut out, word(if s.mult_x == MultSymbolX::Cross { "kryss" } else { "ganger" }));
            },
            Times::Implicit => {
                let left = &xs[i - 1];
                let right = &xs[i];
                let voiced = s.implied_times != ImpliedTimes::Silent && (s.implied_times
                    == ImpliedTimes::More || is_silent_fence(left) || is_silent_fence(right) || (
                is_root(left) && is_root(right)));
                if voiced {
                    if is_root(left) {
                        push_tok(&mut out, Token::Pause(Pause::Long));
                    }
                    push_tok(&mut out, word("ganger"));
                }
            },
        }
    }
    assert(tokens_view(out@) =~= product_joint(xs@, joins@, *s, i as int));
    let t = match speak(&xs[i], s, Place::Factor(i == 0)) {
        Ok(t) => t,
        Err(e) => {
            return Err(e);
        },
    };
    match speak_product_from(xs, joins, s, i + 1) {
        Ok(rest) => {
            append(&mut out, t);
            append(&mut out, rest);
            Ok(out)
        },
        Err(e) => Err(e),
    }
}

fn speak_power(x: &Expr, s: &Settings) -> (r: Result<Vec<Token>, RuleError>)
    ensures
        result_view(r) == power_reading(*x, *s),
    decreases x, 3int,
{
    let mut r: Vec<Token> = Vec::new();
    if let Expr::Leaf(LeafKind::Number, d) = x {
        if eq_str(d, "2") {
            push_tok(&mut r, word("i andre"));
            assert(tokens_view(r@) =~= seq![w("i andre"@)]);
            return Ok(r);
        } else if eq_str(d, "3") {
            push_tok(&mut r, word("i tredje"));
            assert(tokens_view(r@) =~= seq![w("i tredje"@)]);
            return Ok(r);
        }
    }
    push_tok(&mut r, word("opphøyd i"));
    match speak(x, s, Place::Alone) {
        Ok(p) => append(&mut r, p),
        Err(e) => {
            return Err(e);
        },
    }
    push_tok(&mut r, Token::Pause(Pause::Short));
    proof {
        let sp = power_reading(*x, *s);
        assert(sp is Ok);
        assert(tokens_view(r@) =~= sp->Ok_0);
    }
    Ok(r)
}

fn speak_function(f: &Expr, s: &Settings, fenced: bool) -> (r: Result<Vec<Token>, RuleError>)
    ensures
        result_view(r) == function_reading(*f, *s, fenced),
    decreases f, 3int,
{
    let mut r: Vec<Token> = Vec::new();
    match f {
        Expr::Leaf(LeafKind::Ident, t) => {
            if crate::canon::is_function_name(t) {
                push_tok(&mut r, Token::Word(function_words(t, s.verbosity, fenced)));
                assert(tokens_view(r@) =~= seq![w(function_phrase(t@, s.verbosity, fenced))]);
                return Ok(r);
            }
        },
        Expr::Sup(b, x) => {
            if let Expr::Leaf(LeafKind::Ident, t) = &**b {
                let name = function_words(t, s.verbosity, fenced);
                if let Expr::Neg(one) = &**x {
                    if let Expr::Leaf(LeafKind::Number, d) = &**one {
                        if eq_str(d, "1") {
                            push_tok(&mut r, word("invers"));
                            push_tok(&mut r, Token::Word(name));
                            assert(tokens_view(r@) =~= seq![w("invers"@), w(function_phrase(t@, s.verbosity, fenced))]);
                            return Ok(r);
                        }
                    }
                }
                push_tok(&mut r, Token::Word(name));
                return match speak_power(x, s) {
                    Ok(p) => {
                        append(&mut r, p);
                        proof {
                            let sp = function_reading(*f, *s, fenced);
                            assert(sp is Ok);
                            assert(tokens_view(r@) =~= sp->Ok_0);
                        }
                        Ok(r)
                    },
                    Err(e) => Err(e),
                };
            }
        },
        Expr::Sub(b, x) => {
            if let Expr::Leaf(LeafKind::Ident, t) = &**b {
                if eq_str(t, "log") {
                    push_tok(&mut r, word("logaritmen med grunntall"));
                    return match speak(x, s, Place::Alone) {
                        Ok(p) => {
                            append(&mut r, p);
                            push_tok(&mut r, Token::Pause(Pause::Short));
                            proof {
                                let sp = function_reading(*f, *s, fenced);
                                assert(sp is Ok);
                                assert(tokens_view(r@) =~= sp->Ok_0);
                            }
                            Ok(r)
                        },
                        Err(e) => Err(e),
                    };
                }
            }
        },
        _ => {},
    }
    speak(f, s, Place::Alone)
}

fn speak_fraction(e: &Expr, s: &Settings) -> (r: Result<Vec<Token>, RuleError>)
    ensures
        result_view(r) == fraction_reading(*e, *s),
    decreases e, 1int,
{
    let (a, b) = match e {
        Expr::Frac(a, b) => (&**a, &**b),
        _ => {
            return Err(RuleError::NoApplicableRule);
        },
    };
    let mut r: Vec<Token> = Vec::new();
    if let (Expr::Leaf(LeafKind::Number, n), Expr::Leaf(LeafKind::Number, d)) = (a, b) {
        let one = eq_str(n, "1");
        let part = if eq_str(d, "2") {
            Some(if one { "halv" } else { "halve" })
        } else if eq_str(d, "3") {
            Some(if one { "tredjedel" } else { "tredjedeler" })
        } else if eq_str(d, "4") {
            Some(if one { "fjerdedel" } else { "fjerdedeler" })
        } else {
            None
        };
        if let Some(x) = part {
            push_tok(&mut r, Token::Word(crate::canon::copy_chars(n)));
            push_tok(&mut r, word(x));
            assert(fraction_part(n@, d@) == Some(x@));
            assert(tokens_view(r@) =~= seq![w(n@), w(x@)]);
            return Ok(r);
        }
        assert(fraction_part(n@, d@) is None);
    }
    let plain = is_leaf(a) && is_leaf(b);
    if !plain {
        push_tok(&mut r, word("brøk"));
        push_tok(&mut r, Token::Pause(Pause::Short));
    }
    let pa = match speak(a, s, Place::Alone) {
        Ok(p) => p,
        Err(e) => {
            return Err(e);
        },
    };
    let pb = match speak(b, s, Place::Alone) {
        Ok(p) => p,
        Err(e) => {
            return Err(e);
        },
    };
    append(&mut r, pa);
    push_tok(&mut r, word("over"));
    append(&mut r, pb);
    if !plain {
        push_tok(&mut r, Token::Pause(Pause::Short));
        push_tok(&mut r, word("slutt brøk"));
    }
    proof {
        let sp = fraction_reading(*e, *s);
        assert(sp is Ok);
        assert(tokens_view(r@) =~= sp->Ok_0);
    }
    Ok(r)
}

fn speak_intent_args(args: &Vec<Expr>, s: &Settings, k: usize) -> (r: Result<Vec<Token>, RuleError>)
    requires
        k <= args@.len(),
    ensures
        result_view(r) == intent_args_from(*args, *s, k as int),
    decreases args, args@.len() - k,
{
    if k >= args.len() {
        return Ok(no_tokens());
    }
    let mut out: Vec<Token> = Vec::new();
    push_tok(&mut out, word(if k == 0 { "av" } else { "komma" }));
    let p = match speak(&args[k], s, Place::Alone) {
        Ok(p) => p,
        Err(e) => {
            return Err(e);
        },
    };
    match speak_intent_args(args, s, k + 1) {
        Ok(rest) => {
            let ghost pv = tokens_view(p@);
            let ghost rv = tokens_view(rest@);
            append(&mut out, p);
            append(&mut out, rest);
            assert(tokens_view(out@) =~= seq![w(if k == 0 { "av"@ } else { "komma"@ })] + pv + rv);
            Ok(out)
        },
        Err(e) => Err(e),
    }
}

fn speak_intent(name: &Vec<char>, args: &Vec<Expr>, s: &Settings) -> (r: Result<Vec<Token>, RuleError>)
    ensures
        result_view(r) == intent_reading(name@, *args, *s),
    decreases args, args@.len() + 1,
{
    if args.len() == 2 {
        if let Some(k) = interval_of(name) {
            let a = match speak(&args[0], s, Place::Alone) {
                Ok(p) => p,
                Err(e) => {
                    return Err(e);
                },
            };
            let b = match speak(&args[1], s, Place::Alone) {
                Ok(p) => p,
                Err(e) => {
                    return Err(e);
                },
            };
            return Ok(speak_interval(k, a, b));
        }
    }
    let mut x: Vec<char> = Vec::new();
    let mut i: usize = 0;
    while i < name.len()
        invariant
            i <= name@.len(),
            x@ == dashes_to_spaces(name@.subrange(0, i as int)),
        decreases name.len() - i,
    {
        x.push(if name[i] == '-' { ' ' } else { name[i] });
        i = i + 1;
        assert(x@ =~= dashes_to_spaces(name@.subrange(0, i as int)));
    }
    assert(name@.subrange(0, name@.len() as int) =~= name@);
    let mut r: Vec<Token> = Vec::new();
    push_tok(&mut r, Token::Word(x));
    match speak_intent_args(args, s, 0) {
        Ok(rest) => {
            append(&mut r, rest);
            proof {
                let sp = intent_reading(name@, *args, *s);
                assert(sp is Ok);
                assert(tokens_view(r@) =~= sp->Ok_0);
            }
            Ok(r)
        },
        Err(e) => Err(e),
    }
}

/// Wraps the reading of a child between fixed tokens.
fn wrap(pre: Vec<Token>, child: Result<Vec<Token>, RuleError>, post: Vec<Token>) -> (r: Result<Vec<Token>, RuleError>)
    ensures
        result_view(r) == around(tokens_view(pre@), result_view(child), tokens_view(post@)),
{
    match child {
        Ok(t) => {
            let mut out = pre;
            append(&mut out, t);
            append(&mut out, post);
            Ok(out)
        },
        Err(e) => Err(e),
    }
}

fn tokens2(a: Token, b: Token) -> (r: Vec<Token>)
    ensures
        tokens_view(r@) == seq![a@, b@],
{
    let mut r: Vec<Token> = Vec::new();
    push_tok(&mut r, a);
    push_tok(&mut r, b);
    assert(tokens_view(r@) =~= seq![a@, b@]);
    r
}

fn tokens1(a: Token) -> (r: Vec<Token>)
    ensures
        tokens_view(r@) == seq![a@],
{
    let mut r: Vec<Token> = Vec::new();
    push_tok(&mut r, a);
    assert(tokens_view(r@) =~= seq![a@]);
    r
}

fn no_tokens() -> (r: Vec<Token>)
    ensures
        tokens_view(r@) == Seq::<TokenModel>::empty(),
{
    let r: Vec<Token> = Vec::new();
    assert(tokens_view(r@) =~= Seq::<TokenModel>::empty());
    r
}

fn speak_fenced(e: &Expr, s: &Settings, place: Place) -> (r: Result<Vec<Token>, RuleError>)
    ensures
        result_view(r) == fenced_reading(*e, *s, place),
    decreases e, 1int,
{
    match e {
        Expr::Fenced(o, _, b) => {
            if *o == '{' {
                if let Expr::Bar(l, x) = &**b {
                    // set-builder notation is read as such whatever the bar preference says
                    let lt = match speak(l, s, Place::Alone) {
                        Ok(p) => p,
                        Err(e) => {
                            return Err(e);
                        },
                    };
                    let mut pre = tokens1(word("mengden av alle"));
                    append(&mut pre, lt);
                    push_tok(&mut pre, word("slik at"));
                    return wrap(pre, speak(x, s, Place::Alone), no_tokens());
                }
            }
            if is_simple(b) {
                return speak(b, s, Place::Alone);
            }
            if place == Place::SumOperand && is_monomial(b) {
                return wrap(no_tokens(), speak(b, s, Place::Alone), tokens1(Token::Pause(Pause::Short)));
            }
            let lead = match place {
                Place::Factor(false) | Place::Argument(true) => Pause::Long,
                _ => Pause::Short,
            };
            let close = if has_operator(b) { Pause::Long } else { Pause::Short };
            let (open, shut) = bracket_words(*o);
            let mut pre = tokens2(Token::Pause(lead), word(open));
            push_tok(&mut pre, Token::Pause(Pause::Long));
            assert(tokens_view(pre@) =~= seq![pz(lead), w(bracket_phrases(*o).0), pz(Pause::Long)]);
            wrap(pre, speak(b, s, Place::Alone), tokens2(Token::Pause(close), word(shut)))
        },
        _ => Err(RuleError::NoApplicableRule),
    }
}

fn speak_apply(e: &Expr, s: &Settings, place: Place) -> (r: Result<Vec<Token>, RuleError>)
    ensures
        result_view(r) == apply_reading(*e, *s, place),
    decreases e, 1int,
{
    match e {
        Expr::Apply(f, x) => {
            let fenced = match &**x {
                Expr::Fenced('(', _, _) => true,
                _ => false,
            };
            let scripted = match &**f {
                Expr::Sup(_, _) | Expr::Sub(_, _) => true,
                _ => false,
            };
            let mut pre = match speak_function(f, s, fenced) {
                Ok(p) => p,
                Err(e) => {
                    return Err(e);
                },
            };
            push_tok(&mut pre, word("av"));
            wrap(pre, speak(x, s, Place::Argument(scripted)), no_tokens())
        },
        _ => Err(RuleError::NoApplicableRule),
    }
}

fn speak_bar(e: &Expr, s: &Settings, place: Place) -> (r: Result<Vec<Token>, RuleError>)
    ensures
        result_view(r) == bar_reading_of(*e, *s, place),
    decreases e, 1int,
{
    match e {
        Expr::Bar(l, x) => {
            let bar = choose_bar_reading(s.vertical_line, is_number(l) && is_number(x));
            let mut pre = match speak(l, s, Place::Alone) {
                Ok(p) => p,
                Err(e) => {
                    return Err(e);
                },
            };
            let ghost a = tokens_view(pre@);
            match bar {
                BarReading::Divides => push_tok(&mut pre, word("deler")),
                BarReading::Given => {
                    push_tok(&mut pre, Token::Pause(Pause::Short));
                    push_tok(&mut pre, word("gitt"));
                    assert(tokens_view(pre@) =~= a + seq![pz(Pause::Short), w("gitt"@)]);
                },
                BarReading::SuchThat => push_tok(&mut pre, word("slik at")),
            }
            wrap(pre, speak(x, s, Place::Alone), no_tokens())
        },
        _ => Err(RuleError::NoApplicableRule),
    }
}

fn speak_evaluated(e: &Expr, s: &Settings, place: Place) -> (r: Result<Vec<Token>, RuleError>)
    ensures
        result_view(r) == evaluated_reading(*e, *s, place),
    decreases e, 1int,
{
    match e {
        Expr::EvalAt(b, lo, hi) => {
            let mut r = match speak(b, s, Place::Alone) {
                Ok(p) => p,
                Err(e) => {
                    return Err(e);
                },
            };
            let low = match speak(lo, s, Place::Alone) {
                Ok(p) => p,
                Err(e) => {
                    return Err(e);
                },
            };
            match hi {
                None => {
                    push_tok(&mut r, word("evaluert i"));
                    append(&mut r, low);
                },
                Some(h) => {
                    let high = match speak(h, s, Place::Alone) {
                        Ok(p) => p,
                        Err(e) => {
                            return Err(e);
                        },
                    };
                    push_tok(&mut r, Token::Pause(Pause::Short));
                    push_tok(&mut r, word("evaluert for øvre verdi"));
                    push_tok(&mut r, Token::Pause(Pause::Short));
                    append(&mut r, high);
                    push_tok(&mut r, Token::Pause(Pause::Short));
                    push_tok(&mut r, word("og nedre verdi"));
                    push_tok(&mut r, Token::Pause(Pause::Short));
                    append(&mut r, low);
                },
            }
            proof {
                let sp = evaluated_reading(*e, *s, place);
                assert(sp is Ok);
                assert(tokens_view(r@) =~= sp->Ok_0);
            }
            Ok(r)
        },
        _ => Err(RuleError::NoApplicableRule),
    }
}

/// An interval intent is read by its template, whatever notation the annotated node
/// holds inside and wherever it stands: its reading depends on the readings of its two
/// arguments alone, never on the shape-based rules or the place.
pub proof fn lemma_intent_takes_precedence(name: Vec<char>, args: Vec<Expr>, s: Settings, place: Place)
    requires
        args@.len() == 2,
        interval_named(name@) is Some,
    ensures
        reading(Expr::Intent(name, args), s, place) == match reading(args@[0], s, Place::Alone) {
            Err(e) => Err(e),
            Ok(a) => match reading(args@[1], s, Place::Alone) {
                Err(e) => Err(e),
                Ok(b) => Ok(interval_reading(interval_named(name@)->Some_0, a, b)),
            },
        },
{
    assert(reading(Expr::Intent(name, args), s, place) == intent_reading(name@, args, s));
}

/// Reads a canonical expression by the rule for its shape.
pub fn speak(e: &Expr, s: &Settings, place: Place) -> (r: Result<Vec<Token>, RuleError>)
    ensures
        result_view(r) == reading(*e, *s, place),
    decreases e, 2int,
{
    match e {
        Expr::Empty => Ok(no_tokens()),
        Expr::Leaf(k, t) => speak_leaf(*k, t, s),
        Expr::Fenced(_, _, _) => speak_fenced(e, s, place),
        Expr::Abs(b) => wrap(
            tokens1(word("absoluttverdien av")),
            speak(b, s, Place::Alone),
            tokens1(Token::Pause(Pause::Long)),
        ),
        Expr::Neg(b) => wrap(tokens1(word("minus")), speak(b, s, Place::Alone), no_tokens()),
        Expr::Sum(xs, ops) => speak_chain(xs, ops, s, Place::SumOperand, false),
        Expr::Relation(xs, ops) => speak_chain(xs, ops, s, Place::Alone, true),
        Expr::Product(xs, joins) => speak_product_from(xs, joins, s, 0),
        Expr::Apply(_, _) => speak_apply(e, s, place),
        Expr::Bar(_, _) => speak_bar(e, s, place),
        Expr::List(xs) => {
            let and_so_on = s.ellipses == Ellipses::AndSoOn && xs.len() > 0 && !is_ellipsis(&xs[0]);
            speak_list_from(xs, s, and_so_on, 0, false)
        },
        Expr::Frac(_, _) => speak_fraction(e, s),
        Expr::Sqrt(b) => {
            let post = if is_leaf(b) {
                no_tokens()
            } else {
                tokens2(Token::Pause(Pause::Short), word("slutt rot"))
            };
            wrap(tokens1(word("kvadratroten av")), speak(b, s, Place::Alone), post)
        },
        Expr::Root(b, idx) => {
            let cube = match &**idx {
                Expr::Leaf(LeafKind::Number, d) => eq_str(d, "3"),
                _ => false,
            };
            let post = if is_leaf(b) {
                no_tokens()
            } else {
                tokens2(Token::Pause(Pause::Short), word("slutt rot"))
            };
            if cube {
                wrap(tokens1(word("kubikkroten av")), speak(b, s, Place::Alone), post)
            } else {
                let i = match speak(idx, s, Place::Alone) {
                    Ok(p) => p,
                    Err(e) => {
                        return Err(e);
                    },
                };
                let mut pre = tokens1(word("roten av grad"));
                append(&mut pre, i);
                push_tok(&mut pre, word("av"));
                wrap(pre, speak(b, s, Place::Alone), post)
            }
        },
        Expr::Sup(b, x) => {
            let p = match speak(b, s, Place::Base) {
                Ok(p) => p,
                Err(e) => {
                    return Err(e);
                },
            };
            wrap(p, speak_power(x, s), no_tokens())
        },
        Expr::Sub(b, x) => {
            let mut p = match speak(b, s, Place::Base) {
                Ok(p) => p,
                Err(e) => {
                    return Err(e);
                },
            };
            push_tok(&mut p, word("med indeks"));
            wrap(p, speak(x, s, Place::Alone), tokens1(Token::Pause(Pause::Short)))
        },
        Expr::SubSup(b, x, y) => {
            let mut p = match speak(b, s, Place::Base) {
                Ok(p) => p,
                Err(e) => {
                    return Err(e);
                },
            };
            let q = match speak(x, s, Place::Alone) {
                Ok(q) => q,
                Err(e) => {
                    return Err(e);
                },
            };
            push_tok(&mut p, word("med indeks"));
            append(&mut p, q);
            wrap(p, speak_power(y, s), no_tokens())
        },
        Expr::EvalAt(_, _, _) => speak_evaluated(e, s, place),
        Expr::Intent(name, args) => speak_intent(name, args, s),
    }
}

} // verus!
