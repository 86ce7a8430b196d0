//! Braille transcription of the canonical tree under the Nemeth code.
use vstd::prelude::*;
use crate::expr::{Expr, LeafKind, Times};
use crate::settings::VerticalLine;
use crate::speech::{BarReading, Interval, RuleError, bar_reading, choose_bar_reading, interval_named, interval_of, number_sp};
use crate::text::{chars_of, push_all};
use crate::speech::is_number;

verus! {

/// The Nemeth cell of a decimal digit (digits sit in the lower part of the cell).
pub open spec fn digit_cell(c: char) -> Option<char> {
    if c == '1' { Some('⠂') }
    else if c == '2' { Some('⠆') }
    else if c == '3' { Some('⠒') }
    else if c == '4' { Some('⠲') }
    else if c == '5' { Some('⠢') }
    else if c == '6' { Some('⠖') }
    else if c == '7' { Some('⠶') }
    else if c == '8' { Some('⠦') }
    else if c == '9' { Some('⠔') }
    else if c == '0' { Some('⠴') }
    else if c == '.' { Some('⠨') }
    else { None }
}

pub fn digit_of(c: char) -> (r: Option<char>)
    ensures
        r == digit_cell(c),
{
    if c == '1' { Some('⠂') }
    else if c == '2' { Some('⠆') }
    else if c == '3' { Some('⠒') }
    else if c == '4' { Some('⠲') }
    else if c == '5' { Some('⠢') }
    else if c == '6' { Some('⠖') }
    else if c == '7' { Some('⠶') }
    else if c == '8' { Some('⠦') }
    else if c == '9' { Some('⠔') }
    else if c == '0' { Some('⠴') }
    else if c == '.' { Some('⠨') }
    else { None }
}

/// The cell of a letter, in alphabetical order; capitals use the same cells.
pub open spec fn letter_cell(c: char) -> Option<char> {
    if 'a' <= c && c <= 'z' {
        Some("⠁⠃⠉⠙⠑⠋⠛⠓⠊⠚⠅⠇⠍⠝⠕⠏⠟⠗⠎⠞⠥⠧⠺⠭⠽⠵"@[c as int - 'a' as int])
    } else if 'A' <= c && c <= 'Z' {
        Some("⠁⠃⠉⠙⠑⠋⠛⠓⠊⠚⠅⠇⠍⠝⠕⠏⠟⠗⠎⠞⠥⠧⠺⠭⠽⠵"@[c as int - 'A' as int])
    } else {
        None
    }
}

fn letter_of(c: char) -> (r: Option<char>)
    ensures
        r == letter_cell(c),
{
    let cells = chars_of("⠁⠃⠉⠙⠑⠋⠛⠓⠊⠚⠅⠇⠍⠝⠕⠏⠟⠗⠎⠞⠥⠧⠺⠭⠽⠵");
    proof {
        reveal_strlit("⠁⠃⠉⠙⠑⠋⠛⠓⠊⠚⠅⠇⠍⠝⠕⠏⠟⠗⠎⠞⠥⠧⠺⠭⠽⠵");
    }
    if 'a' <= c && c <= 'z' {
        Some(cells[(c as u32 - 'a' as u32) as usize])
    } else if 'A' <= c && c <= 'Z' {
        Some(cells[(c as u32 - 'A' as u32) as usize])
    } else {
        None
    }
}

/// A letter's cells: the capital sign before a capital's cell.
pub open spec fn letter_piece(c: char) -> Seq<char> {
    if 'A' <= c && c <= 'Z' {
        seq!['⠠', letter_cell(c)->Some_0]
    } else {
        seq![letter_cell(c)->Some_0]
    }
}

pub open spec fn letter_cells(t: Seq<char>) -> Seq<char>
    decreases t.len(),
{
    if t.len() == 0 {
        Seq::empty()
    } else {
        letter_cells(t.drop_last()) + letter_piece(t.last())
    }
}

/// The cells of a symbol that has its own.
pub open spec fn symbol_cells(c: char) -> Option<Seq<char>> {
    if c == '+' { Some("⠬"@) }
    else if c == '-' || c == '−' { Some("⠤"@) }
    else if c == '=' { Some("⠀⠨⠅⠀"@) }
    else if c == '>' { Some("⠀⠨⠂⠀"@) }
    else if c == '<' { Some("⠀⠐⠅⠀"@) }
    else if c == '×' { Some("⠈⠡"@) }
    else if c == '·' || c == '⋅' { Some("⠡"@) }
    else if c == ',' { Some("⠠⠀"@) }
    else if c == '|' { Some("⠳"@) }
    else if c == '…' { Some("⠄⠄⠄"@) }
    else if c == '∞' { Some("⠠⠿"@) }
    else { None }
}

fn symbol_of(c: char) -> (r: Option<&'static str>)
    ensures
        match r {
            Some(x) => symbol_cells(c) == Some(x@),
            None => symbol_cells(c) is None,
        },
{
    if c == '+' { Some("⠬") }
    else if c == '-' || c == '−' { Some("⠤") }
    else if c == '=' { Some("⠀⠨⠅⠀") }
    else if c == '>' { Some("⠀⠨⠂⠀") }
    else if c == '<' { Some("⠀⠐⠅⠀") }
    else if c == '×' { Some("⠈⠡") }
    else if c == '·' || c == '⋅' { Some("⠡") }
    else if c == ',' { Some("⠠⠀") }
    else if c == '|' { Some("⠳") }
    else if c == '…' { Some("⠄⠄⠄") }
    else if c == '∞' { Some("⠠⠿") }
    else { None }
}

/// A number takes the numeric indicator at the start of the text or after a blank.
pub open spec fn number_start(out: Seq<char>) -> bool {
    out.len() == 0 || out.last() == '⠀'
}

/// A leaf appended to the transcription so far: a number as its digits' cells, a
/// symbol by its cells, a name letter by letter.
pub open spec fn leaf_cells(kind: LeafKind, t: Seq<char>, out: Seq<char>) -> Result<Seq<char>, RuleError> {
    if kind == LeafKind::Number {
        if forall|i: int| 0 <= i < t.len() ==> digit_cell(#[trigger] t[i]) is Some {
            Ok(out + (if number_start(out) { seq!['⠼'] } else { Seq::empty() }) + t.map_values(
                |c: char| digit_cell(c)->Some_0,
            ))
        } else {
            Err(RuleError::NoApplicableRule)
        }
    } else if t.len() == 1 && symbol_cells(t[0]) is Some {
        Ok(out + symbol_cells(t[0])->Some_0)
    } else if forall|i: int| 0 <= i < t.len() ==> letter_cell(#[trigger] t[i]) is Some {
        Ok(out + letter_cells(t))
    } else {
        Err(RuleError::NoApplicableRule)
    }
}

fn push_str(out: &mut Vec<char>, s: &str)
    ensures
        final(out)@ == old(out)@ + s@,
{
    let cs = chars_of(s);
    push_all(out, &cs);
}

fn transcribe_leaf(kind: LeafKind, t: &Vec<char>, out: &mut Vec<char>) -> (r: Result<(), RuleError>)
    ensures
        r is Ok ==> leaf_cells(kind, t@, old(out)@) == Ok::<Seq<char>, RuleError>(final(out)@),
        r matches Err(e) ==> leaf_cells(kind, t@, old(out)@) == Err::<Seq<char>, RuleError>(e),
{
    if kind == LeafKind::Number {
        let mut i: usize = 0;
        while i < t.len()
            invariant
                i <= t@.len(),
                kind == LeafKind::Number,
                out@ == old(out)@,
                forall|k: int| 0 <= k < i ==> digit_cell(#[trigger] t@[k]) is Some,
            decreases t.len() - i,
        {
            if digit_of(t[i]).is_none() {
                assert(digit_cell(t@[i as int]) is None);
                assert(leaf_cells(kind, t@, out@) is Err);
                return Err(RuleError::NoApplicableRule);
            }
            i = i + 1;
        }
        if out.len() == 0 || out[out.len() - 1] == '⠀' {
            out.push('⠼');
        }
        let ghost start = out@;
        assert(start == old(out)@ + (if number_start(old(out)@) { seq!['⠼'] } else { Seq::empty() }));
        let mut j: usize = 0;
        while j < t.len()
            invariant
                j <= t@.len(),
                kind == LeafKind::Number,
                start == old(out)@ + (if number_start(old(out)@) { seq!['⠼'] } else { Seq::empty() }),
                forall|k: int| 0 <= k < t@.len() ==> digit_cell(#[trigger] t@[k]) is Some,
                out@ == start + t@.subrange(0, j as int).map_values(|c: char| digit_cell(c)->Some_0),
            decreases t.len() - j,
        {
            let d = match digit_of(t[j]) {
                Some(d) => d,
                None => '⠀',
            };
            out.push(d);
            j = j + 1;
            assert(out@ =~= start + t@.subrange(0, j as int).map_values(|c: char| digit_cell(c)->Some_0));
        }
        assert(t@.subrange(0, t@.len() as int) =~= t@);
        return Ok(());
    }
    if t.len() == 1 {
        if let Some(x) = symbol_of(t[0]) {
            let ghost before = out@;
            push_str(out, x);
            assert(leaf_cells(kind, t@, before) == Ok::<Seq<char>, RuleError>(before + x@));
            return Ok(());
        }
    }
    let ghost start = out@;
    assert(!(t@.len() == 1 && symbol_cells(t@[0]) is Some));
    let mut i: usize = 0;
    while i < t.len()
        invariant
            i <= t@.len(),
            kind != LeafKind::Number,
            !(t@.len() == 1 && symbol_cells(t@[0]) is Some),
            start == old(out)@,
            forall|k: int| 0 <= k < i ==> letter_cell(#[trigger] t@[k]) is Some,
            out@ == start + letter_cells(t@.subrange(0, i as int)),
        decreases t.len() - i,
    {
        let c = t[i];
        let cell = match letter_of(c) {
            Some(l) => l,
            None => {
                assert(letter_cell(t@[i as int]) is None);
                assert(leaf_cells(kind, t@, start) is Err);
                return Err(RuleError::NoApplicableRule);
            },
        };
        if 'A' <= c && c <= 'Z' {
            out.push('⠠');
        }
        out.push(cell);
        proof {
            let p = t@.subrange(0, i + 1);
            assert(p.drop_last() =~= t@.subrange(0, i as int));
            assert(p.last() == c);
        }
        i = i + 1;
        assert(out@ =~= start + letter_cells(t@.subrange(0, i as int)));
    }
    assert(t@.subrange(0, t@.len() as int) =~= t@);
    Ok(())
}

pub open spec fn bracket_cells(c: char) -> Seq<char> {
    if c == '(' { "⠷"@ }
    else if c == ')' { "⠾"@ }
    else if c == '[' { "⠈⠷"@ }
    else if c == ']' { "⠈⠾"@ }
    else if c == '{' { "⠨⠷"@ }
    else { "⠨⠾"@ }
}

fn bracket_of(c: char) -> (r: &'static str)
    ensures
        r@ == bracket_cells(c),
{
    if c == '(' { "⠷" }
    else if c == ')' { "⠾" }
    else if c == '[' { "⠈⠷" }
    else if c == ']' { "⠈⠾" }
    else if c == '{' { "⠨⠷" }
    else { "⠨⠾" }
}

pub open spec fn then_append(r: Result<Seq<char>, RuleError>, tail: Seq<char>) -> Result<Seq<char>, RuleError> {
    match r {
        Ok(x) => Ok(x + tail),
        Err(e) => Err(e),
    }
}

pub open spec fn then_push(r: Result<Seq<char>, RuleError>, c: char) -> Result<Seq<char>, RuleError> {
    match r {
        Ok(x) => Ok(x.push(c)),
        Err(e) => Err(e),
    }
}

/// Operands from position `i` on, each after the first preceded by its separator: a
/// comma in a list, else the operator written before it.
pub open spec fn operands_from(xs: Vec<Expr>, seps: Seq<char>, comma: bool, vl: VerticalLine, i: int, out: Seq<char>) -> Result<Seq<char>, RuleError>
    decreases xs, xs@.len() - i,
{
    if i < 0 || i >= xs@.len() {
        Ok(out)
    } else {
        let pre = if i > 0 && (comma || i - 1 < seps.len()) {
            leaf_cells(LeafKind::Operator, seq![if comma { ',' } else { seps[i - 1] }], out)
        } else {
            Ok(out)
        };
        match pre {
            Err(e) => Err(e),
            Ok(o) => match transcribed(xs@[i], vl, o) {
                Err(e) => Err(e),
                Ok(x) => operands_from(xs, seps, comma, vl, i + 1, x),
            },
        }
    }
}

/// Factors from position `i` on; a written multiplication sign is transcribed, an
/// implicit product is not.
pub open spec fn factors_from(xs: Vec<Expr>, joins: Seq<Times>, vl: VerticalLine, i: int, out: Seq<char>) -> Result<Seq<char>, RuleError>
    decreases xs, xs@.len() - i,
{
    if i < 0 || i >= xs@.len() {
        Ok(out)
    } else {
        let o = if i > 0 && i - 1 < joins.len() && joins[i - 1] == Times::Sign { out + "⠈⠡"@ } else { out };
        match transcribed(xs@[i], vl, o) {
            Err(e) => Err(e),
            Ok(x) => factors_from(xs, joins, vl, i + 1, x),
        }
    }
}

/// The cells a vertical bar is written with: a bar that divides stands between its
/// operands, a bar read as "given" or "such that" is set off by blanks.
pub open spec fn bar_cells(r: BarReading) -> Seq<char> {
    match r {
        BarReading::Divides => "⠳"@,
        _ => "⠀⠳⠀"@,
    }
}

fn bar_cells_of(r: BarReading) -> (c: &'static str)
    ensures
        c@ == bar_cells(r),
{
    match r {
        BarReading::Divides => "⠳",
        _ => "⠀⠳⠀",
    }
}

/// The brackets an interval is written with: round for an open end, square for a
/// closed one.
pub open spec fn interval_cells(k: Interval) -> (Seq<char>, Seq<char>) {
    match k {
        Interval::Open => ("⠷"@, "⠾"@),
        Interval::Closed => ("⠈⠷"@, "⠈⠾"@),
        Interval::OpenClosed => ("⠷"@, "⠈⠾"@),
        Interval::ClosedOpen => ("⠈⠷"@, "⠾"@),
    }
}

fn interval_cells_of(k: Interval) -> (r: (&'static str, &'static str))
    ensures
        (r.0@, r.1@) == interval_cells(k),
{
    match k {
        Interval::Open => ("⠷", "⠾"),
        Interval::Closed => ("⠈⠷", "⠈⠾"),
        Interval::OpenClosed => ("⠷", "⠈⠾"),
        Interval::ClosedOpen => ("⠈⠷", "⠾"),
    }
}

/// The transcription of an expression appended to `out`. A vertical bar follows the
/// same reading as in speech (`bar_reading` under the preference `vl`; the bar of a
/// set-builder is "such that"); an interval intent is written with the brackets of its
/// kind around its two end points, any other intent as its arguments in parentheses.
pub open spec fn transcribed(e: Expr, vl: VerticalLine, out: Seq<char>) -> Result<Seq<char>, RuleError>
    decreases e, 1int,
{
    match e {
        Expr::Empty => Ok(out),
        Expr::Leaf(k, t) => leaf_cells(k, t@, out),
        Expr::Fenced(o, c, b) => {
            let inner = if o == '{' && (*b) matches Expr::Bar(_, _) { VerticalLine::SuchThat } else { vl };
            then_append(transcribed(*b, inner, out + bracket_cells(o)), bracket_cells(c))
        },
        Expr::Abs(b) => then_push(transcribed(*b, vl, out.push('⠳')), '⠳'),
        Expr::Neg(b) => transcribed(*b, vl, out.push('⠤')),
        Expr::Sum(xs, ops) => operands_from(xs, ops@, false, vl, 0, out),
        Expr::Relation(xs, ops) => operands_from(xs, ops@, false, vl, 0, out),
        Expr::List(xs) => operands_from(xs, Seq::empty(), true, vl, 0, out),
        Expr::Product(xs, joins) => factors_from(xs, joins@, vl, 0, out),
        Expr::Apply(f, x) => match transcribed(*f, vl, out) {
            Err(e) => Err(e),
            Ok(r) => transcribed(*x, vl, r.push('⠀')),
        },
        Expr::Bar(l, x) => match transcribed(*l, vl, out) {
            Err(e) => Err(e),
            Ok(r) => transcribed(*x, vl, r + bar_cells(bar_reading(vl, number_sp(*l) && number_sp(*x)))),
        },
        Expr::Frac(a, b) => match transcribed(*a, vl, out.push('⠹')) {
            Err(e) => Err(e),
            Ok(r) => then_push(transcribed(*b, vl, r.push('⠌')), '⠼'),
        },
        Expr::Sqrt(b) => then_push(transcribed(*b, vl, out.push('⠜')), '⠻'),
        Expr::Root(b, idx) => match transcribed(*idx, vl, out.push('⠣')) {
            Err(e) => Err(e),
            Ok(r) => then_push(transcribed(*b, vl, r.push('⠜')), '⠻'),
        },
        Expr::Sup(b, x) => match transcribed(*b, vl, out) {
            Err(e) => Err(e),
            Ok(r) => then_push(transcribed(*x, vl, r.push('⠘')), '⠐'),
        },
        Expr::Sub(b, x) => match transcribed(*b, vl, out) {
            Err(e) => Err(e),
            Ok(r) => then_push(transcribed(*x, vl, r.push('⠰')), '⠐'),
        },
        Expr::SubSup(b, x, y) => match transcribed(*b, vl, out) {
            Err(e) => Err(e),
            Ok(r) => match transcribed(*x, vl, r.push('⠰')) {
                Err(e) => Err(e),
                Ok(r2) => then_push(transcribed(*y, vl, r2.push('⠘')), '⠐'),
            },
        },
        Expr::EvalAt(b, lo, hi) => match transcribed(*b, vl, out) {
            Err(e) => Err(e),
            Ok(r) => match transcribed(*lo, vl, r + "⠳⠰"@) {
                Err(e) => Err(e),
                Ok(r2) => match hi {
                    None => Ok(r2.push('⠐')),
                    Some(h) => then_push(transcribed(*h, vl, r2.push('⠘')), '⠐'),
                },
            },
        },
        Expr::Intent(name, args) => {
            if args@.len() == 2 && interval_named(name@) is Some {
                let k = interval_named(name@)->Some_0;
                match transcribed(args@[0], vl, out + interval_cells(k).0) {
                    Err(e) => Err(e),
                    Ok(r) => then_append(transcribed(args@[1], vl, r + "⠠⠀"@), interval_cells(k).1),
                }
            } else {
                then_append(operands_from(args, Seq::empty(), true, vl, 0, out + "⠷"@), "⠾"@)
            }
        },
    }
}

fn transcribe_operands(xs: &Vec<Expr>, seps: &Vec<char>, comma: bool, vl: VerticalLine, i: usize, out: &mut Vec<char>) -> (r: Result<(), RuleError>)
    requires
        i <= xs@.len(),
    ensures
        r is Ok ==> operands_from(*xs, seps@, comma, vl, i as int, old(out)@) == Ok::<Seq<char>, RuleError>(final(out)@),
        r matches Err(e) ==> operands_from(*xs, seps@, comma, vl, i as int, old(out)@) == Err::<Seq<char>, RuleError>(e),
    decreases xs, xs@.len() - i,
{
    if i >= xs.len() {
        return Ok(());
    }
    if i > 0 && (comma || i - 1 < seps.len()) {
        let mut op: Vec<char> = Vec::new();
        op.push(if comma { ',' } else { seps[i - 1] });
        match transcribe_leaf(LeafKind::Operator, &op, out) {
            Ok(()) => {},
            Err(e) => {
                return Err(e);
            },
        }
    }
    match transcribe(&xs[i], vl, out) {
        Ok(()) => {},
        Err(e) => {
            return Err(e);
        },
    }
    transcribe_operands(xs, seps, comma, vl, i + 1, out)
}

fn transcribe_factors(xs: &Vec<Expr>, joins: &Vec<Times>, vl: VerticalLine, i: usize, out: &mut Vec<char>) -> (r: Result<(), RuleError>)
    requires
        i <= xs@.len(),
    ensures
        r is Ok ==> factors_from(*xs, joins@, vl, i as int, old(out)@) == Ok::<Seq<char>, RuleError>(final(out)@),
        r matches Err(e) ==> factors_from(*xs, joins@, vl, i as int, old(out)@) == Err::<Seq<char>, RuleError>(e),
    decreases xs, xs@.len() - i,
{
    if i >= xs.len() {
        return Ok(());
    }
    if i > 0 && i - 1 < joins.len() && joins[i - 1] == Times::Sign {
        push_str(out, "⠈⠡");
    }
    match transcribe(&xs[i], vl, out) {
        Ok(()) => {},
        Err(e) => {
            return Err(e);
        },
    }
    transcribe_factors(xs, joins, vl, i + 1, out)
}

fn transcribe_root(e: &Expr, vl: VerticalLine, out: &mut Vec<char>) -> (r: Result<(), RuleError>)
    requires
        *e matches Expr::Root(_, _),
    ensures
        r is Ok ==> transcribed(*e, vl, old(out)@) == Ok::<Seq<char>, RuleError>(final(out)@),
        r matches Err(x) ==> transcribed(*e, vl, old(out)@) == Err::<Seq<char>, RuleError>(x),
    decreases e, 0int,
{
    match e {
        Expr::Root(b, idx) => {
            out.push('⠣');
            match transcribe(idx, vl, out) {
                Ok(()) => {},
                Err(e) => {
                    return Err(e);
                },
            }
            out.push('⠜');
            match transcribe(b, vl, out) {
                Ok(()) => {},
                Err(e) => {
                    return Err(e);
                },
            }
            out.push('⠻');
            Ok(())
        },
        _ => Err(RuleError::NoApplicableRule),
    }
}

fn transcribe_subsup(e: &Expr, vl: VerticalLine, out: &mut Vec<char>) -> (r: Result<(), RuleError>)
    requires
        *e matches Expr::SubSup(_, _, _),
    ensures
        r is Ok ==> transcribed(*e, vl, old(out)@) == Ok::<Seq<char>, RuleError>(final(out)@),
        r matches Err(x) ==> transcribed(*e, vl, old(out)@) == Err::<Seq<char>, RuleError>(x),
    decreases e, 0int,
{
    match e {
        Expr::SubSup(b, x, y) => {
            match transcribe(b, vl, out) {
                Ok(()) => {},
                Err(e) => {
                    return Err(e);
                },
            }
            out.push('⠰');
            match transcribe(x, vl, out) {
                Ok(()) => {},
                Err(e) => {
                    return Err(e);
                },
            }
            out.push('⠘');
            match transcribe(y, vl, out) {
                Ok(()) => {},
                Err(e) => {
                    return Err(e);
                },
            }
            out.push('⠐');
            Ok(())
        },
        _ => Err(RuleError::NoApplicableRule),
    }
}

fn transcribe_evaluated(e: &Expr, vl: VerticalLine, out: &mut Vec<char>) -> (r: Result<(), RuleError>)
    requires
        *e matches Expr::EvalAt(_, _, _),
    ensures
        r is Ok ==> transcribed(*e, vl, old(out)@) == Ok::<Seq<char>, RuleError>(final(out)@),
        r matches Err(x) ==> transcribed(*e, vl, old(out)@) == Err::<Seq<char>, RuleError>(x),
    decreases e, 0int,
{
    match e {
        Expr::EvalAt(b, lo, hi) => {
            match transcribe(b, vl, out) {
                Ok(()) => {},
                Err(e) => {
                    return Err(e);
                },
            }
            push_str(out, "⠳⠰");
            match transcribe(lo, vl, out) {
                Ok(()) => {},
                Err(e) => {
                    return Err(e);
                },
            }
            match hi {
                None => {
                    out.push('⠐');
                    Ok(())
                },
                Some(h) => {
                    out.push('⠘');
                    match transcribe(h, vl, out) {
                        Ok(()) => {},
                        Err(e) => {
                            return Err(e);
                        },
                    }
                    out.push('⠐');
                    Ok(())
                },
            }
        },
        _ => Err(RuleError::NoApplicableRule),
    }
}

fn transcribe_intent(e: &Expr, vl: VerticalLine, out: &mut Vec<char>) -> (r: Result<(), RuleError>)
    requires
        *e matches Expr::Intent(_, _),
    ensures
        r is Ok ==> transcribed(*e, vl, old(out)@) == Ok::<Seq<char>, RuleError>(final(out)@),
        r matches Err(x) ==> transcribed(*e, vl, old(out)@) == Err::<Seq<char>, RuleError>(x),
    decreases e, 0int,
{
    match e {
        Expr::Intent(name, args) => {
            if args.len() == 2 {
                if let Some(k) = interval_of(name) {
                    let (open, close) = interval_cells_of(k);
                    push_str(out, open);
                    match transcribe(&args[0], vl, out) {
                        Ok(()) => {},
                        Err(e) => {
                            return Err(e);
                        },
                    }
                    push_str(out, "⠠⠀");
                    match transcribe(&args[1], vl, out) {
                        Ok(()) => {},
                        Err(e) => {
                            return Err(e);
                        },
                    }
                    push_str(out, close);
                    return Ok(());
                }
            }
            push_str(out, "⠷");
            let none: Vec<char> = Vec::new();
            assert(none@ =~= Seq::<char>::empty());
            match transcribe_operands(args, &none, true, vl, 0, out) {
                Ok(()) => {},
                Err(e) => {
                    return Err(e);
                },
            }
            push_str(out, "⠾");
            Ok(())
        },
        _ => Err(RuleError::NoApplicableRule),
    }
}

fn transcribe_fenced(e: &Expr, vl: VerticalLine, out: &mut Vec<char>) -> (r: Result<(), RuleError>)
    requires
        *e matches Expr::Fenced(_, _, _),
    ensures
        r is Ok ==> transcribed(*e, vl, old(out)@) == Ok::<Seq<char>, RuleError>(final(out)@),
        r matches Err(x) ==> transcribed(*e, vl, old(out)@) == Err::<Seq<char>, RuleError>(x),
    decreases e, 0int,
{
    match e {
        Expr::Fenced(o, c, b) => {
            let inner = match &**b {
                Expr::Bar(_, _) => if *o == '{' { VerticalLine::SuchThat } else { vl },
                _ => vl,
            };
            push_str(out, bracket_of(*o));
            match transcribe(b, inner, out) {
                Ok(()) => {},
                Err(e) => {
                    return Err(e);
                },
            }
            push_str(out, bracket_of(*c));
            Ok(())
        },
        _ => Err(RuleError::NoApplicableRule),
    }
}

fn transcribe_abs(e: &Expr, vl: VerticalLine, out: &mut Vec<char>) -> (r: Result<(), RuleError>)
    requires
        *e matches Expr::Abs(_),
    ensures
        r is Ok ==> transcribed(*e, vl, old(out)@) == Ok::<Seq<char>, RuleError>(final(out)@),
        r matches Err(x) ==> transcribed(*e, vl, old(out)@) == Err::<Seq<char>, RuleError>(x),
    decreases e, 0int,
{
    match e {
        Expr::Abs(b) => {
            out.push('⠳');
            match transcribe(b, vl, out) {
                Ok(()) => {},
                Err(e) => {
                    return Err(e);
                },
            }
            out.push('⠳');
            Ok(())
        },
        _ => Err(RuleError::NoApplicableRule),
    }
}

fn transcribe_apply(e: &Expr, vl: VerticalLine, out: &mut Vec<char>) -> (r: Result<(), RuleError>)
    requires
        *e matches Expr::Apply(_, _),
    ensures
        r is Ok ==> transcribed(*e, vl, old(out)@) == Ok::<Seq<char>, RuleError>(final(out)@),
        r matches Err(x) ==> transcribed(*e, vl, old(out)@) == Err::<Seq<char>, RuleError>(x),
    decreases e, 0int,
{
    match e {
        Expr::Apply(f, x) => {
            match transcribe(f, vl, out) {
                Ok(()) => {},
                Err(e) => {
                    return Err(e);
                },
            }
            out.push('⠀');
            transcribe(x, vl, out)
        },
        _ => Err(RuleError::NoApplicableRule),
    }
}

fn transcribe_bar(e: &Expr, vl: VerticalLine, out: &mut Vec<char>) -> (r: Result<(), RuleError>)
    requires
        *e matches Expr::Bar(_, _),
    ensures
        r is Ok ==> transcribed(*e, vl, old(out)@) == Ok::<Seq<char>, RuleError>(final(out)@),
        r matches Err(x) ==> transcribed(*e, vl, old(out)@) == Err::<Seq<char>, RuleError>(x),
    decreases e, 0int,
{
    match e {
        Expr::Bar(l, x) => {
            let bar = choose_bar_reading(vl, is_number(l) && is_number(x));
            match transcribe(l, vl, out) {
                Ok(()) => {},
                Err(e) => {
                    return Err(e);
                },
            }
            push_str(out, bar_cells_of(bar));
            transcribe(x, vl, out)
        },
        _ => Err(RuleError::NoApplicableRule),
    }
}

fn transcribe_fraction(e: &Expr, vl: VerticalLine, out: &mut Vec<char>) -> (r: Result<(), RuleError>)
    requires
        *e matches Expr::Frac(_, _),
    ensures
        r is Ok ==> transcribed(*e, vl, old(out)@) == Ok::<Seq<char>, RuleError>(final(out)@),
        r matches Err(x) ==> transcribed(*e, vl, old(out)@) == Err::<Seq<char>, RuleError>(x),
    decreases e, 0int,
{
    match e {
        Expr::Frac(a, b) => {
            out.push('⠹');
            match transcribe(a, vl, out) {
                Ok(()) => {},
                Err(e) => {
                    return Err(e);
                },
            }
            out.push('⠌');
            match transcribe(b, vl, out) {
                Ok(()) => {},
                Err(e) => {
                    return Err(e);
                },
            }
            out.push('⠼');
            Ok(())
        },
        _ => Err(RuleError::NoApplicableRule),
    }
}

fn transcribe_sqrt(e: &Expr, vl: VerticalLine, out: &mut Vec<char>) -> (r: Result<(), RuleError>)
    requires
        *e matches Expr::Sqrt(_),
    ensures
        r is Ok ==> transcribed(*e, vl, old(out)@) == Ok::<Seq<char>, RuleError>(final(out)@),
        r matches Err(x) ==> transcribed(*e, vl, old(out)@) == Err::<Seq<char>, RuleError>(x),
    decreases e, 0int,
{
    match e {
        Expr::Sqrt(b) => {
            out.push('⠜');
            match transcribe(b, vl, out) {
                Ok(()) => {},
                Err(e) => {
                    return Err(e);
                },
            }
            out.push('⠻');
            Ok(())
        },
        _ => Err(RuleError::NoApplicableRule),
    }
}

fn transcribe_sup(e: &Expr, vl: VerticalLine, out: &mut Vec<char>) -> (r: Result<(), RuleError>)
    requires
        *e matches Expr::Sup(_, _),
    ensures
        r is Ok ==> transcribed(*e, vl, old(out)@) == Ok::<Seq<char>, RuleError>(final(out)@),
        r matches Err(x) ==> transcribed(*e, vl, old(out)@) == Err::<Seq<char>, RuleError>(x),
    decreases e, 0int,
{
    match e {
        Expr::Sup(b, x) => {
            match transcribe(b, vl, out) {
                Ok(()) => {},
                Err(e) => {
                    return Err(e);
                },
            }
            out.push('⠘');
            match transcribe(x, vl, out) {
                Ok(()) => {},
                Err(e) => {
                    return Err(e);
                },
            }
            out.push('⠐');
            Ok(())
        },
        _ => Err(RuleError::NoApplicableRule),
    }
}

fn transcribe_sub(e: &Expr, vl: VerticalLine, out: &mut Vec<char>) -> (r: Result<(), RuleError>)
    requires
        *e matches Expr::Sub(_, _),
    ensures
        r is Ok ==> transcribed(*e, vl, old(out)@) == Ok::<Seq<char>, RuleError>(final(out)@),
        r matches Err(x) ==> transcribed(*e, vl, old(out)@) == Err::<Seq<char>, RuleError>(x),
    decreases e, 0int,
{
    match e {
        Expr::Sub(b, x) => {
            match transcribe(b, vl, out) {
                Ok(()) => {},
                Err(e) => {
                    return Err(e);
                },
            }
            out.push('⠰');
            match transcribe(x, vl, out) {
                Ok(()) => {},
                Err(e) => {
                    return Err(e);
                },
            }
            out.push('⠐');
            Ok(())
        },
        _ => Err(RuleError::NoApplicableRule),
    }
}

/// Appends the Nemeth transcription of an expression.
#[verifier::rlimit(100)]
pub fn transcribe(e: &Expr, vl: VerticalLine, out: &mut Vec<char>) -> (r: Result<(), RuleError>)
    ensures
        r is Ok ==> transcribed(*e, vl, old(out)@) == Ok::<Seq<char>, RuleError>(final(out)@),
        r matches Err(x) ==> transcribed(*e, vl, old(out)@) == Err::<Seq<char>, RuleError>(x),
    decreases e, 1int,
{
    match e {
        Expr::Empty => Ok(()),
        Expr::Leaf(k, t) => transcribe_leaf(*k, t, out),
        Expr::Fenced(_, _, _) => transcribe_fenced(e, vl, out),
        Expr::Abs(_) => transcribe_abs(e, vl, out),
        Expr::Neg(b) => {
            out.push('⠤');
            transcribe(b, vl, out)
        },
        Expr::Sum(xs, ops) => transcribe_operands(xs, ops, false, vl, 0, out),
        Expr::Relation(xs, ops) => transcribe_operands(xs, ops, false, vl, 0, out),
        Expr::List(xs) => {
            let none: Vec<char> = Vec::new();
            assert(none@ =~= Seq::<char>::empty());
            transcribe_operands(xs, &none, true, vl, 0, out)
        },
        Expr::Product(xs, joins) => transcribe_factors(xs, joins, vl, 0, out),
        Expr::Apply(_, _) => transcribe_apply(e, vl, out),
        Expr::Bar(_, _) => transcribe_bar(e, vl, out),
        Expr::Frac(_, _) => transcribe_fraction(e, vl, out),
        Expr::Sqrt(_) => transcribe_sqrt(e, vl, out),
        Expr::Root(_, _) => transcribe_root(e, vl, out),
        Expr::Sup(_, _) => transcribe_sup(e, vl, out),
        Expr::Sub(_, _) => transcribe_sub(e, vl, out),
        Expr::SubSup(_, _, _) => transcribe_subsup(e, vl, out),
        Expr::EvalAt(_, _, _) => transcribe_evaluated(e, vl, out),
        Expr::Intent(_, _) => transcribe_intent(e, vl, out),
    }
}

} // verus!
