//! Canonicalization: from the markup tree to the expression tree.
use vstd::prelude::*;
use crate::expr::{Expr, LeafKind, Times};
use crate::markup::{MarkupError, MarkupNode, Tag, trim, trimmed};
use crate::text::{eq_str, push_all, same_chars};

verus! {

pub fn copy_chars(v: &Vec<char>) -> (r: Vec<char>)
    ensures
        r@ == v@,
{
    let mut r: Vec<char> = Vec::new();
    push_all(&mut r, v);
    assert(r@ =~= v@);
    r
}

/// The character of an operator leaf made of exactly one character.
pub fn op_char(e: &Expr) -> (r: Option<char>)
    ensures
        r matches Some(c) ==> (e matches Expr::Leaf(LeafKind::Operator, t) && t@ == seq![c]),
        r is None ==> !(e matches Expr::Leaf(LeafKind::Operator, t) && t@.len() == 1),
        r == op_char_sp(*e),
{
    match e {
        Expr::Leaf(LeafKind::Operator, t) => {
            if t.len() == 1 {
                assert(t@ =~= seq![t@[0]]);
                Some(t[0])
            } else {
                None
            }
        },
        _ => None,
    }
}

pub fn is_operator_leaf(e: &Expr) -> (r: bool)
    ensures
        r == (e matches Expr::Leaf(LeafKind::Operator, _)),
{
    match e {
        Expr::Leaf(LeafKind::Operator, _) => true,
        _ => false,
    }
}

pub open spec fn is_relation_char(c: char) -> bool {
    c == '=' || c == '>' || c == '<' || c == '≤' || c == '≥' || c == '≠'
}

pub open spec fn is_additive_char(c: char) -> bool {
    c == '+' || c == '-' || c == '−' || c == '±'
}

/// The classes of separators a row is split at, from the loosest binding.
#[derive(Clone, Copy, Debug, PartialEq, Eq, Structural)]
pub enum Split {
    Comma,
    Relation,
    Additive,
}

pub open spec fn splits_at(k: Split, items: Seq<Expr>, i: int) -> bool {
    &&& 0 < i
    &&& items[i] matches Expr::Leaf(LeafKind::Operator, t)
    &&& t@.len() == 1
    &&& match k {
        Split::Comma => t@[0] == ',',
        Split::Relation => is_relation_char(t@[0]),
        Split::Additive => is_additive_char(t@[0]) && !(items[i - 1] matches Expr::Leaf(
            LeafKind::Operator,
            _,
        )),
    }
}

fn is_split(k: Split, items: &Vec<Expr>, i: usize) -> (r: bool)
    requires
        i < items@.len(),
    ensures
        r == splits_at(k, items@, i as int),
{
    if i == 0 {
        return false;
    }
    match op_char(&items[i]) {
        Some(c) => match k {
            Split::Comma => c == ',',
            Split::Relation => c == '=' || c == '>' || c == '<' || c == '≤' || c == '≥' || c == '≠',
            Split::Additive => (c == '+' || c == '-' || c == '−' || c == '±') && !is_operator_leaf(
                &items[i - 1],
            ),
        },
        None => {
            false
        },
    }
}

fn first_split(k: Split, items: &Vec<Expr>) -> (r: Option<usize>)
    ensures
        r matches Some(i) ==> 0 < i < items@.len() && splits_at(k, items@, i as int),
        r is None ==> forall|i: int| 0 <= i < items@.len() ==> !splits_at(k, items@, i),
{
    let mut i: usize = 0;
    while i < items.len()
        invariant
            i <= items@.len(),
            forall|j: int| 0 <= j < i ==> !splits_at(k, items@, j),
        decreases items.len() - i,
    {
        if is_split(k, items, i) {
            return Some(i);
        }
        i = i + 1;
    }
    None
}

/// Splits a row at every separator of the given class: the pieces between them, and the
/// separators' text. Without such a separator there is one piece, the row itself.
fn split_row(k: Split, items: Vec<Expr>) -> (r: (Vec<Vec<Expr>>, Vec<Vec<char>>))
    ensures
        r.0@.len() == r.1@.len() + 1,
        r.0@.len() > 1 ==> forall|i: int| 0 <= i < r.0@.len() ==> #[trigger] r.0@[i]@.len() < items@.len(),
        r.0@.len() == 1 ==> r.0@[0]@ == items@,
        (forall|i: int| 0 <= i < items@.len() ==> !splits_at(k, items@, i)) ==> r.0@.len() == 1,
{
    let mut parts: Vec<Vec<Expr>> = Vec::new();
    let mut seps: Vec<Vec<char>> = Vec::new();
    let mut rest = items;
    let ghost n = rest@.len();
    loop
        invariant
            parts@.len() == seps@.len(),
            rest@.len() <= n,
            parts@.len() > 0 ==> rest@.len() < n,
            parts@.len() == 0 ==> rest@ == items@,
            n == items@.len(),
            forall|i: int| 0 <= i < parts@.len() ==> #[trigger] parts@[i]@.len() < n,
            (forall|i: int| 0 <= i < items@.len() ==> !splits_at(k, items@, i)) ==> parts@.len() == 0,
        decreases rest@.len(),
    {
        match first_split(k, &rest) {
            None => {
                parts.push(rest);
                return (parts, seps);
            },
            Some(i) => {
                let mut tail = rest.split_off(i);
                let sep = tail.remove(0);
                let text = match sep {
                    Expr::Leaf(_, t) => t,
                    _ => Vec::new(),
                };
                parts.push(rest);
                seps.push(text);
                rest = tail;
            },
        }
    }
}

/// The names read as a function applied to what follows them.
pub open spec fn function_name(v: Seq<char>) -> bool {
    v == "sin"@ || v == "cos"@ || v == "tan"@ || v == "sec"@ || v == "csc"@ || v == "cot"@ || v
        == "sinh"@ || v == "cosh"@ || v == "tanh"@ || v == "sech"@ || v == "csch"@ || v
        == "coth"@ || v == "log"@ || v == "ln"@ || v == "exp"@
}

/// Whether a name is read as a function applied to what follows it.
pub fn is_function_name(v: &Vec<char>) -> (r: bool)
    ensures
        r == function_name(v@),
{
    eq_str(v, "sin") || eq_str(v, "cos") || eq_str(v, "tan") || eq_str(v, "sec") || eq_str(v, "csc")
        || eq_str(v, "cot") || eq_str(v, "sinh") || eq_str(v, "cosh") || eq_str(v, "tanh")
        || eq_str(v, "sech") || eq_str(v, "csch") || eq_str(v, "coth") || eq_str(v, "log")
        || eq_str(v, "ln") || eq_str(v, "exp")
}

/// A function name, possibly carrying a script.
pub open spec fn function_sp(e: Expr) -> bool {
    match e {
        Expr::Leaf(LeafKind::Ident, t) => function_name(t@),
        Expr::Sup(b, _) => (*b) matches Expr::Leaf(LeafKind::Ident, t) && function_name(t@),
        Expr::Sub(b, _) => (*b) matches Expr::Leaf(LeafKind::Ident, t) && function_name(t@),
        _ => false,
    }
}

/// Whether an expression is a function name, possibly carrying a script.
pub fn is_function(e: &Expr) -> (r: bool)
    ensures
        r == function_sp(*e),
{
    match e {
        Expr::Leaf(LeafKind::Ident, t) => is_function_name(t),
        Expr::Sup(b, _) => match &**b {
            Expr::Leaf(LeafKind::Ident, t) => is_function_name(t),
            _ => false,
        },
        Expr::Sub(b, _) => match &**b {
            Expr::Leaf(LeafKind::Ident, t) => is_function_name(t),
            _ => false,
        },
        _ => false,
    }
}

/// Whether `f` written before `next` is a function applied to it.
/// Whether `f` written before `next` is a function applied to it: a function name
/// before any operand, or `f`, `g` or `h` before a parenthesized operand.
pub open spec fn applies_sp(f: Expr, next: Expr) -> bool {
    !(next matches Expr::Leaf(LeafKind::Operator, _)) && (function_sp(f) || (f matches Expr::Leaf(
        LeafKind::Ident,
        t,
    ) && t@.len() == 1 && (t@[0] == 'f' || t@[0] == 'g' || t@[0] == 'h') && next matches Expr::Fenced(
        '(',
        _,
        _,
    )))
}

fn applies_to(f: &Expr, next: &Expr) -> (r: bool)
    ensures
        r == applies_sp(*f, *next),
{
    if is_operator_leaf(next) {
        return false;
    }
    if is_function(f) {
        return true;
    }
    match (f, next) {
        (Expr::Leaf(LeafKind::Ident, t), Expr::Fenced('(', _, _)) => t.len() == 1 && (t[0] == 'f'
            || t[0] == 'g' || t[0] == 'h'),
        _ => false,
    }
}

/// The single character of an operator leaf, if it is one.
pub open spec fn op_char_sp(e: Expr) -> Option<char> {
    match e {
        Expr::Leaf(LeafKind::Operator, t) => if t@.len() == 1 { Some(t@[0]) } else { None },
        _ => None,
    }
}

/// The factors read so far, the joins between them, the join waiting for the next
/// factor, and whether an explicit function application is waiting.
pub type ProductState = (Seq<Expr>, Seq<Times>, Option<Times>, bool);

/// One item of a product row: an invisible times (U+2062) or a written sign (×, ·, ⋅,
/// `*`) sets the join for the next factor, U+2061 marks the next operand as an
/// argument; an operand becomes the argument of the factor before it when an
/// application is marked or that factor `applies_sp` to it with no join between,
/// else a new factor joined by the waiting join (implicit when none).
pub open spec fn product_step(st: ProductState, it: Expr) -> ProductState {
    let (fs, js, join, apply) = st;
    match op_char_sp(it) {
        Some(c) if c == '\u{2062}' => (fs, js, Some(Times::Implicit), apply),
        Some(c) if c == '×' || c == '·' || c == '⋅' || c == '*' => (fs, js, Some(Times::Sign), apply),
        Some(c) if c == '\u{2061}' => (fs, js, join, true),
        _ => if fs.len() > 0 && (apply || (join is None && applies_sp(fs.last(), it))) {
            (fs.drop_last().push(Expr::Apply(Box::new(fs.last()), Box::new(it))), js, join, false)
        } else if fs.len() > 0 {
            (fs.push(it), js.push(
                match join {
                    Some(j) => j,
                    None => Times::Implicit,
                },
            ), None, false)
        } else {
            (fs.push(it), js, None, false)
        },
    }
}

pub open spec fn product_state(items: Seq<Expr>) -> ProductState
    decreases items.len(),
{
    if items.len() == 0 {
        (Seq::empty(), Seq::empty(), None, false)
    } else {
        product_step(product_state(items.drop_last()), items.last())
    }
}

/// The expression a product row gives: nothing, its single factor, or the product of
/// its factors with their joins.
pub open spec fn product_of(items: Seq<Expr>, r: Expr) -> bool {
    let fs = product_state(items).0;
    if fs.len() == 0 {
        r is Empty
    } else if fs.len() == 1 {
        r == fs[0]
    } else {
        r matches Expr::Product(f, j) && f@ == fs && j@ == product_state(items).1
    }
}

/// Builds the product of a row without looser operators: function applications first,
/// then the factors with the way each pair is joined.
fn build_product(items: Vec<Expr>) -> (r: Expr)
    ensures
        product_of(items@, r),
{
    let ghost all = items@;
    let mut rest = items;
    let mut factors: Vec<Expr> = Vec::new();
    let mut joins: Vec<Times> = Vec::new();
    let mut join: Option<Times> = None;
    let mut apply = false;
    let ghost mut done: int = 0;
    while rest.len() > 0
        invariant
            0 <= done <= all.len(),
            rest@ == all.subrange(done, all.len() as int),
            (factors@, joins@, join, apply) == product_state(all.subrange(0, done)),
        decreases rest@.len(),
    {
        let ghost before = product_state(all.subrange(0, done));
        let it = rest.remove(0);
        proof {
            assert(it == all[done]);
            let p = all.subrange(0, done + 1);
            assert(p.drop_last() =~= all.subrange(0, done));
            assert(p.last() == it);
            done = done + 1;
            assert(rest@ =~= all.subrange(done, all.len() as int));
        }
        match op_char(&it) {
            Some(c) => {
                if c == '\u{2062}' {
                    join = Some(Times::Implicit);
                    assert((factors@, joins@, join, apply) == product_step(before, it));
                    continue;
                } else if c == '×' || c == '·' || c == '⋅' || c == '*' {
                    join = Some(Times::Sign);
                    assert((factors@, joins@, join, apply) == product_step(before, it));
                    continue;
                } else if c == '\u{2061}' {
                    apply = true;
                    assert((factors@, joins@, join, apply) == product_step(before, it));
                    continue;
                }
            },
            None => {},
        }
        if factors.len() > 0 {
            let last = factors.len() - 1;
            if apply || (join.is_none() && applies_to(&factors[last], &it)) {
                let ghost fs0 = factors@;
                let f = factors.pop().unwrap();
                factors.push(Expr::Apply(Box::new(f), Box::new(it)));
                apply = false;
                assert(factors@ =~= fs0.drop_last().push(Expr::Apply(Box::new(fs0.last()), Box::new(it))));
                assert((factors@, joins@, join, apply) == product_step(before, it));
                continue;
            }
            joins.push(
                match join {
                    Some(j) => j,
                    None => Times::Implicit,
                },
            );
        }
        join = None;
        apply = false;
        factors.push(it);
        assert((factors@, joins@, join, apply) == product_step(before, it));
    }
    assert(all.subrange(0, done) =~= all);
    if factors.len() == 0 {
        Expr::Empty
    } else if factors.len() == 1 {
        factors.pop().unwrap()
    } else {
        Expr::Product(factors, joins)
    }
}

/// The index of the bracket that closes the one at `i`, if the row holds it.
fn matching_closer(items: &Vec<Expr>, i: usize) -> (r: Option<usize>)
    requires
        i < items@.len(),
    ensures
        r matches Some(j) ==> i < j < items@.len(),
{
    let n = items.len();
    let mut depth: usize = 0;
    let mut j = i + 1;
    while j < items.len()
        invariant
            i < j <= items@.len(),
        decreases items.len() - j,
    {
        match op_char(&items[j]) {
            Some(c) => {
                if c == '(' || c == '[' || c == '{' {
                    if depth < usize::MAX {
                        depth = depth + 1;
                    }
                } else if c == ')' || c == ']' || c == '}' {
                    if depth == 0 {
                        return Some(j);
                    }
                    depth = depth - 1;
                }
            },
            None => {},
        }
        j = j + 1;
    }
    None
}

/// No item of the row is an opening bracket.
pub open spec fn no_opener(items: Seq<Expr>) -> bool {
    forall|i: int| 0 <= i < items.len() ==> !(#[trigger] op_char_sp(items[i]) matches Some(c) && (c == '('
        || c == '[' || c == '{'))
}

/// The marker an evaluation bar leaves in a row until the row is parsed.
pub open spec fn is_eval_marker(e: Expr) -> bool {
    e matches Expr::EvalAt(b, _, _) && *b is Empty
}

/// A row that holds no bracket, comma, vertical bar, relation or additive operator and
/// does not end in an evaluation bar: it is read as a product.
pub open spec fn plain_row(items: Seq<Expr>) -> bool {
    &&& items.len() > 0
    &&& !is_eval_marker(items.last())
    &&& forall|i: int| 0 <= i < items.len() ==> !(#[trigger] op_char_sp(items[i]) matches Some(c) && (c == '('
        || c == '[' || c == '{' || c == ',' || c == '|' || is_relation_char(c) || is_additive_char(c)))
}

/// A row with a vertical bar at `k` between two operands, no bar before it, and no
/// bracket or comma: it is read as that bar between the items before and after it.
pub open spec fn bar_row(items: Seq<Expr>, k: int) -> bool {
    &&& 0 < k < items.len() - 1
    &&& !is_eval_marker(items.last())
    &&& op_char_sp(items[k]) == Some('|')
    &&& forall|i: int| 0 <= i < items.len() ==> !(#[trigger] op_char_sp(items[i]) matches Some(c) && (c == '('
        || c == '[' || c == '{' || c == ',' || (c == '|' && i < k)))
}

proof fn lemma_bar_row_has_no_comma(items: Seq<Expr>, k: int)
    requires
        bar_row(items, k),
    ensures
        no_opener(items),
        forall|i: int| 0 <= i < items.len() ==> !#[trigger] splits_at(Split::Comma, items, i),
{
    assert forall|i: int| 0 <= i < items.len() implies !#[trigger] splits_at(Split::Comma, items, i) by {
        if splits_at(Split::Comma, items, i) {
            assert(op_char_sp(items[i]) is Some);
        }
    }
}

proof fn lemma_plain_row_has_no_split(items: Seq<Expr>)
    requires
        plain_row(items),
    ensures
        no_opener(items),
        forall|k: Split, i: int| 0 <= i < items.len() ==> !#[trigger] splits_at(k, items, i),
{
    assert forall|k: Split, i: int| 0 <= i < items.len() implies !#[trigger] splits_at(k, items, i) by {
        if splits_at(k, items, i) {
            assert(op_char_sp(items[i]) is Some);
        }
    }
}

/// The first opening bracket of the row that has a matching closing one.
fn first_fence(items: &Vec<Expr>) -> (r: Option<(usize, usize)>)
    ensures
        r matches Some((i, j)) ==> i < j < items@.len(),
        no_opener(items@) ==> r is None,
{
    let mut i: usize = 0;
    while i < items.len()
        invariant
            i <= items@.len(),
        decreases items.len() - i,
    {
        match op_char(&items[i]) {
            Some(c) => {
                if c == '(' || c == '[' || c == '{' {
                    match matching_closer(items, i) {
                        Some(j) => {
                            return Some((i, j));
                        },
                        None => {},
                    }
                }
            },
            None => {},
        }
        i = i + 1;
    }
    None
}

fn parse_pieces(parts: Vec<Vec<Expr>>, bound: Ghost<nat>) -> (r: Result<Vec<Expr>, MarkupError>)
    requires
        forall|i: int| 0 <= i < parts@.len() ==> #[trigger] parts@[i]@.len() < bound@,
    ensures
        r matches Ok(v) ==> v@.len() == parts@.len(),
        r is Ok,
    decreases bound@, 0nat,
{
    let mut out: Vec<Expr> = Vec::new();
    let mut rest = parts;
    let ghost n = rest@.len();
    while rest.len() > 0
        invariant
            out@.len() + rest@.len() == n,
            forall|i: int| 0 <= i < rest@.len() ==> #[trigger] rest@[i]@.len() < bound@,
        decreases rest@.len(),
    {
        let part = rest.remove(0);
        assert(part@.len() < bound@);
        match parse_row(part) {
            Ok(e) => out.push(e),
            Err(e) => {
                return Err(e);
            },
        }
    }
    Ok(out)
}

/// Takes the bracket pair at `i` and `j` out of a row: the row with the pair and what
/// it encloses removed, the enclosed items, and the two bracket characters.
fn cut_fence(items: Vec<Expr>, i: usize, j: usize) -> (r: (Vec<Expr>, Vec<Expr>, char, char))
    requires
        i < j < items@.len(),
    ensures
        r.0@.len() == items@.len() - (j - i + 1),
        r.1@.len() == j - i - 1,
{
    let n = items.len();
    let mut items = items;
    let mut tail = items.split_off(j + 1);
    let mut inner = items.split_off(i + 1);
    let close = match inner.pop() {
        Some(e) => match op_char(&e) {
            Some(c) => c,
            None => ')',
        },
        None => ')',
    };
    let open = match items.pop() {
        Some(e) => match op_char(&e) {
            Some(c) => c,
            None => '(',
        },
        None => '(',
    };
    items.append(&mut tail);
    (items, inner, open, close)
}

/// The items before position `k` and those after it.
fn cut_at(items: Vec<Expr>, k: usize) -> (r: (Vec<Expr>, Vec<Expr>))
    requires
        k < items@.len(),
    ensures
        r.0@ == items@.subrange(0, k as int),
        r.1@ == items@.subrange(k + 1, items@.len() as int),
{
    let mut items = items;
    let mut right = items.split_off(k);
    let ghost all = right@;
    right.remove(0);
    assert(right@ =~= all.subrange(1, all.len() as int));
    (items, right)
}

/// Puts one item back into a row at position `i`.
fn splice_fence(items: Vec<Expr>, i: usize, e: Expr) -> (r: Vec<Expr>)
    requires
        i <= items@.len(),
    ensures
        r@.len() == items@.len() + 1,
{
    let mut items = items;
    items.insert(i, e);
    items
}

/// Parses a row of canonical items into one expression, loosest operators first:
/// an evaluation bar at the end, brackets, commas, a vertical bar, relations, sums,
/// a leading sign, and products.
pub fn parse_row(row: Vec<Expr>) -> (r: Result<Expr, MarkupError>)
    ensures
        r is Ok,
        plain_row(row@) ==> (r matches Ok(e) && product_of(row@, e)),
        forall|k: int| bar_row(row@, k) ==> (r matches Ok(e) ==> e is Bar),
        forall|k: int| #![trigger bar_row(row@, k)] bar_row(row@, k) && plain_row(row@.subrange(0, k)) && plain_row(
            row@.subrange(k + 1, row@.len() as int),
        ) ==> (r matches Ok(Expr::Bar(l, x)) && product_of(row@.subrange(0, k), *l) && product_of(
            row@.subrange(k + 1, row@.len() as int),
            *x,
        )),
    decreases row@.len(), 1nat,
{
    let ghost orig = row@.len();
    let mut items = row;
    let n = items.len();
    if n == 0 {
        return Ok(Expr::Empty);
    }
    // an evaluation bar applies to everything before it
    if n >= 2 {
        if let Expr::EvalAt(body, _, _) = &items[n - 1] {
            if let Expr::Empty = &**body {
                let marker = items.pop().unwrap();
                let inner = match parse_row(items) {
                    Ok(e) => e,
                    Err(e) => {
                        return Err(e);
                    },
                };
                return match marker {
                    Expr::EvalAt(_, lo, hi) => Ok(Expr::EvalAt(Box::new(inner), lo, hi)),
                    _ => Ok(inner),
                };
            }
        }
    }
    // a row that is a whole absolute value
    if n >= 3 {
        if op_char(&items[0]) == Some('|') && op_char(&items[n - 1]) == Some('|') {
            items.pop();
            items.remove(0);
            return match parse_row(items) {
                Ok(e) => Ok(Expr::Abs(Box::new(e))),
                Err(e) => Err(e),
            };
        }
    }
    // brackets: replace the first matched pair and what it encloses by one item
    let ghost plain = plain_row(row@);
    let ghost barred = exists|k: int| bar_row(row@, k);
    let ghost k0: int = if barred { choose|k: int| bar_row(row@, k) } else { 0 };
    proof {
        if plain {
            lemma_plain_row_has_no_split(row@);
        }
        if barred {
            lemma_bar_row_has_no_comma(row@, k0);
        }
    }
    let fence = first_fence(&items);
    match fence {
        Some((i, j)) => {
            let (items, inner, open, close) = cut_fence(items, i, j);
            let body = match parse_row(inner) {
                Ok(e) => e,
                Err(e) => {
                    return Err(e);
                },
            };
            let items = splice_fence(items, i, Expr::Fenced(open, close, Box::new(body)));
            return parse_row(items);
        },
        None => {},
    }
    let (parts, _) = split_row(Split::Comma, items);
    if parts.len() > 1 {
        return match parse_pieces(parts, Ghost(n as nat)) {
            Ok(v) => Ok(Expr::List(v)),
            Err(e) => Err(e),
        };
    }
    let mut parts = parts;
    let mut items = parts.pop().unwrap();
    assert(items@.len() == n);
    assert(plain ==> items@ == row@);
    assert(barred ==> items@ == row@);
    // a vertical bar between two expressions
    let mut k: usize = 1;
    while k < n - 1
        invariant
            items@.len() == n,
            n == orig,
            orig == row@.len(),
            plain == plain_row(row@),
            plain ==> items@ == row@,
            barred == (exists|kk: int| bar_row(row@, kk)),
            barred ==> items@ == row@ && bar_row(row@, k0) && k <= k0,
            n > 0,
            1 <= k <= n,
        decreases items.len() - k,
    {
        if op_char(&items[k]) == Some('|') {
            proof {
                assert forall|kk: int| bar_row(row@, kk) implies kk == k by {
                    assert(barred);
                    assert(items@ == row@);
                    assert(bar_row(row@, k0));
                    assert(op_char_sp(row@[k as int]) == Some('|'));
                    assert(op_char_sp(row@[kk]) == Some('|'));
                    assert(op_char_sp(row@[k0]) == Some('|'));
                }
            }
            let (items, right) = cut_at(items, k);
            let l = match parse_row(items) {
                Ok(e) => e,
                Err(e) => {
                    return Err(e);
                },
            };
            let r = match parse_row(right) {
                Ok(e) => e,
                Err(e) => {
                    return Err(e);
                },
            };
            return Ok(Expr::Bar(Box::new(l), Box::new(r)));
        }
        k = k + 1;
    }
    let (parts, ops) = split_row(Split::Relation, items);
    if parts.len() > 1 {
        return match parse_pieces(parts, Ghost(n as nat)) {
            Ok(v) => Ok(Expr::Relation(v, first_chars(ops))),
            Err(e) => Err(e),
        };
    }
    let mut parts = parts;
    let items = parts.pop().unwrap();
    let (parts, ops) = split_row(Split::Additive, items);
    if parts.len() > 1 {
        return match parse_pieces(parts, Ghost(n as nat)) {
            Ok(v) => Ok(Expr::Sum(v, first_chars(ops))),
            Err(e) => Err(e),
        };
    }
    let mut parts = parts;
    let mut items = parts.pop().unwrap();
    if items.len() >= 2 {
        let c = op_char(&items[0]);
        if c == Some('-') || c == Some('−') {
            items.remove(0);
            return match parse_row(items) {
                Ok(e) => Ok(Expr::Neg(Box::new(e))),
                Err(e) => Err(e),
            };
        }
    }
    Ok(build_product(items))
}

/// The first character of each operator's text.
fn first_chars(ops: Vec<Vec<char>>) -> (r: Vec<char>)
    ensures
        r@.len() == ops@.len(),
{
    let mut r: Vec<char> = Vec::new();
    let mut i: usize = 0;
    while i < ops.len()
        invariant
            i <= ops@.len(),
            r@.len() == i,
        decreases ops.len() - i,
    {
        r.push(if ops[i].len() > 0 { ops[i][0] } else { ' ' });
        i = i + 1;
    }
    r
}

/// The leaf a token element becomes.
pub open spec fn leaf_kind(t: Tag) -> Option<LeafKind> {
    match t {
        Tag::Ident => Some(LeafKind::Ident),
        Tag::Number => Some(LeafKind::Number),
        Tag::Operator => Some(LeafKind::Operator),
        Tag::Text => Some(LeafKind::Text),
        _ => None,
    }
}

/// A vertical bar, possibly wrapped in styles or one-child rows.
pub open spec fn bar_node(node: MarkupNode) -> bool
    decreases node,
{
    match node.tag {
        Tag::Operator => node.text@ == seq!['|'],
        Tag::Style | Tag::Row => node.children@.len() == 1 && bar_node(node.children@[0]),
        _ => false,
    }
}

/// A child that marks the row before it as evaluated at its scripts: a subscript (or
/// sub-superscript) of a vertical bar, without an intent.
pub open spec fn eval_bar_child(c: MarkupNode) -> bool {
    &&& c.intent@.len() == 0
    &&& ((c.tag == Tag::Sub && c.children@.len() == 2) || (c.tag == Tag::SubSup && c.children@.len() == 3))
    &&& bar_node(c.children@[0])
}

/// Items that are what the first `n` children of `node` canonicalize to, in order.
pub open spec fn row_items(items: Seq<Expr>, node: MarkupNode, n: int) -> bool
    decreases node, 0int,
{
    &&& items.len() == n
    &&& n <= node.children@.len()
    &&& forall|i: int| 0 <= i < n ==> canon_describes(node.children@[i], Ok(#[trigger] items[i]))
}

/// What the children of a row-like node become: the row of their canonical forms, read
/// as a product when it holds no looser operator, and as a bar when its first bar stands
/// between two operands; a bar between two rows without looser operators joins their
/// products.
pub open spec fn row_of(node: MarkupNode, r: Result<Expr, MarkupError>) -> bool
    decreases node, 1int,
{
    exists|items: Seq<Expr>| #[trigger] same_length(items, node) && row_items(items, node, node.children@.len() as int) && (plain_row(items) ==> (r matches Ok(e)
        && product_of(items, e))) && (forall|k: int| bar_row(items, k) ==> (r matches Ok(e) ==> e is Bar))
        && (forall|k: int| #![trigger bar_row(items, k)] bar_row(items, k) && plain_row(items.subrange(0, k))
        && plain_row(items.subrange(k + 1, items.len() as int)) ==> (r matches Ok(Expr::Bar(l, x))
        && product_of(items.subrange(0, k), *l) && product_of(items.subrange(k + 1, items.len() as int), *x)))
}

pub open spec fn same_length(items: Seq<Expr>, node: MarkupNode) -> bool {
    items.len() == node.children@.len()
}

pub open spec fn no_eval_bar(node: MarkupNode) -> bool {
    forall|i: int| 0 <= i < node.children@.len() ==> !eval_bar_child(#[trigger] node.children@[i])
}

/// Whether a node is a vertical bar, possibly wrapped in a style or a one-child row.
pub fn is_bar_node(node: &MarkupNode) -> (r: bool)
    ensures
        r == bar_node(*node),
    decreases node,
{
    match node.tag {
        Tag::Operator => {
            let r = node.text.len() == 1 && node.text[0] == '|';
            proof {
                if node.text@.len() == 1 {
                    assert(node.text@ =~= seq![node.text@[0]]);
                }
            }
            r
        },
        Tag::Style | Tag::Row => {
            if node.children.len() == 1 {
                is_bar_node(&node.children[0])
            } else {
                false
            }
        },
        _ => false,
    }
}

/// A node canonicalization never rejects: no intent anywhere, and the right number of
/// children for every fraction, root and script.
pub open spec fn canon_safe(n: MarkupNode) -> bool
    decreases n,
{
    &&& n.intent@.len() == 0
    &&& match n.tag {
        Tag::Fraction | Tag::Root | Tag::Sup | Tag::Sub => n.children@.len() == 2,
        Tag::SubSup => n.children@.len() == 3,
        _ => true,
    }
    &&& forall|k: int| 0 <= k < n.children@.len() ==> canon_safe(#[trigger] n.children@[k])
}

/// What canonicalization gives for a node: success on a node it never rejects; for a
/// node with an intent, an `Intent` of the intent's name whose arguments are what the
/// descendants holding the listed argument names become, in order; for a row, a square root, a
/// script, a fraction or a root, the construct built from what its children become (a
/// row as `row_of` says); for a token element, its leaf; and `Malformed` for a
/// fraction, root or script with the wrong number of children.
pub open spec fn canon_describes(node: MarkupNode, r: Result<Expr, MarkupError>) -> bool
    decreases node, 2int,
{
    &&& (canon_safe(node) ==> r is Ok)
    &&& (node.intent@.len() > 0 ==> (r matches Ok(e) ==> (e matches Expr::Intent(n, _) && n@ == intent_name(node.intent@))))
    &&& (node.intent@.len() > 0 ==> (r matches Ok(Expr::Intent(_, args)) ==> (intent_params(node.intent@) matches Some(keys) && intent_args(node, keys, args@))))
    &&& (node.intent@.len() == 0 && (node.tag == Tag::Math || node.tag == Tag::Row || node.tag == Tag::Style) && no_eval_bar(node) && r is Ok ==> row_of(node, r))
    &&& (node.intent@.len() == 0 && node.tag == Tag::Sqrt && no_eval_bar(node) ==> (r matches Ok(e) ==> (e matches Expr::Sqrt(b) && row_of(node, Ok(*b)))))
    &&& (node.intent@.len() == 0 && node.tag == Tag::Sup && node.children@.len() == 2 ==> (r matches Ok(e) ==> (e matches Expr::Sup(a, b) && canon_describes(node.children@[0], Ok(*a)) && canon_describes(node.children@[1], Ok(*b)))))
    &&& (node.intent@.len() == 0 && node.tag == Tag::Sub && node.children@.len() == 2 ==> (r matches Ok(e) ==> (e matches Expr::Sub(a, b) && canon_describes(node.children@[0], Ok(*a)) && canon_describes(node.children@[1], Ok(*b)))))
    &&& (node.intent@.len() == 0 && node.tag == Tag::Fraction && node.children@.len() == 2 ==> (r matches Ok(e) ==> (e matches Expr::Frac(a, b) && canon_describes(node.children@[0], Ok(*a)) && canon_describes(node.children@[1], Ok(*b)))))
    &&& (node.intent@.len() == 0 && node.tag == Tag::Root && node.children@.len() == 2 ==> (r matches Ok(e) ==> (e matches Expr::Root(a, b) && canon_describes(node.children@[0], Ok(*a)) && canon_describes(node.children@[1], Ok(*b)))))
    &&& (node.intent@.len() == 0 && node.tag == Tag::SubSup && node.children@.len() == 3 ==> (r matches Ok(e) ==> (e matches Expr::SubSup(a, b, c) && canon_describes(node.children@[0], Ok(*a)) && canon_describes(node.children@[1], Ok(*b)) && canon_describes(node.children@[2], Ok(*c)))))
    &&& (node.intent@.len() == 0 && leaf_kind(node.tag) is Some ==> (r matches Ok(Expr::Leaf(k, t)) && Some(k) == leaf_kind(node.tag) && t@ == node.text@))
    &&& (node.intent@.len() == 0 && (node.tag == Tag::Fraction || node.tag == Tag::Root || node.tag == Tag::Sup || node.tag == Tag::Sub) && node.children@.len() != 2 ==> r == Err::<Expr, MarkupError>(MarkupError::Malformed))
    &&& (node.intent@.len() == 0 && node.tag == Tag::SubSup && node.children@.len() != 3 ==> r == Err::<Expr, MarkupError>(MarkupError::Malformed))
}

/// Canonicalizes a node. A node carrying an intent is read by that intent, whatever
/// its shape: its arguments are the descendants whose `arg` names them.
pub fn canon(node: &MarkupNode) -> (r: Result<Expr, MarkupError>)
    ensures
        canon_describes(*node, r),
    decreases node, 2nat,
{
    if node.intent.len() > 0 {
        return canon_intent(node);
    }
    match node.tag {
        Tag::Ident => Ok(Expr::Leaf(LeafKind::Ident, copy_chars(&node.text))),
        Tag::Number => Ok(Expr::Leaf(LeafKind::Number, copy_chars(&node.text))),
        Tag::Operator => Ok(Expr::Leaf(LeafKind::Operator, copy_chars(&node.text))),
        Tag::Text => Ok(Expr::Leaf(LeafKind::Text, copy_chars(&node.text))),
        Tag::Math | Tag::Row | Tag::Style => canon_row(node),
        Tag::Sqrt => match canon_row(node) {
            Ok(e) => Ok(Expr::Sqrt(Box::new(e))),
            Err(e) => Err(e),
        },
        _ => {
            let n = node.children.len();
            let want: usize = match node.tag {
                Tag::SubSup => 3,
                _ => 2,
            };
            if n != want {
                return Err(MarkupError::Malformed);
            }
            let a = match canon(&node.children[0]) {
                Ok(e) => e,
                Err(e) => {
                    return Err(e);
                },
            };
            let b = match canon(&node.children[1]) {
                Ok(e) => e,
                Err(e) => {
                    return Err(e);
                },
            };
            match node.tag {
                Tag::Fraction => Ok(Expr::Frac(Box::new(a), Box::new(b))),
                Tag::Root => Ok(Expr::Root(Box::new(a), Box::new(b))),
                Tag::Sup => Ok(Expr::Sup(Box::new(a), Box::new(b))),
                Tag::Sub => Ok(Expr::Sub(Box::new(a), Box::new(b))),
                _ => {
                    let c = match canon(&node.children[2]) {
                        Ok(e) => e,
                        Err(e) => {
                            return Err(e);
                        },
                    };
                    Ok(Expr::SubSup(Box::new(a), Box::new(b), Box::new(c)))
                },
            }
        },
    }
}

/// Canonicalizes the children of a node as one row.
fn canon_row(node: &MarkupNode) -> (r: Result<Expr, MarkupError>)
    ensures
        (forall|k: int| 0 <= k < node.children@.len() ==> canon_safe(#[trigger] node.children@[k])) ==> r is Ok,
        no_eval_bar(*node) && r is Ok ==> row_of(*node, r),
    decreases node, 1nat,
{
    let mut items: Vec<Expr> = Vec::new();
    let mut i: usize = 0;
    while i < node.children.len()
        invariant
            i <= node.children@.len(),
            no_eval_bar(*node) ==> row_items(items@, *node, i as int),
            (forall|k: int| 0 <= k < node.children@.len() ==> canon_safe(#[trigger] node.children@[k]))
                ==> true,
        decreases node.children.len() - i,
    {
        let c = &node.children[i];
        let scripted_bar = (c.tag == Tag::Sub && c.children.len() == 2) || (c.tag == Tag::SubSup
            && c.children.len() == 3);
        if scripted_bar && c.intent.len() == 0 && is_bar_node(&c.children[0]) {
            let lo = match canon(&c.children[1]) {
                Ok(e) => e,
                Err(e) => {
                    return Err(e);
                },
            };
            let hi = if c.tag == Tag::SubSup {
                match canon(&c.children[2]) {
                    Ok(e) => Some(Box::new(e)),
                    Err(e) => {
                        return Err(e);
                    },
                }
            } else {
                None
            };
            items.push(Expr::EvalAt(Box::new(Expr::Empty), Box::new(lo), hi));
        } else {
            match canon(c) {
                Ok(e) => {
                    let ghost before = items@;
                    items.push(e);
                    proof {
                        if no_eval_bar(*node) {
                            assert forall|j: int| 0 <= j < i + 1 implies canon_describes(
                                node.children@[j],
                                Ok(#[trigger] items@[j]),
                            ) by {
                                if j < i {
                                    assert(items@[j] == before[j]);
                                }
                            }
                        }
                    }
                },
                Err(e) => {
                    return Err(e);
                },
            }
        }
        i = i + 1;
    }
    assert(node.children@.subrange(0, node.children@.len() as int) =~= node.children@);
    let ghost row = items@;
    let r = parse_row(items);
    proof {
        if no_eval_bar(*node) && r is Ok {
            assert(i == node.children@.len());
            assert(row_items(row, *node, node.children@.len() as int));
            assert(plain_row(row) ==> (r matches Ok(e) && product_of(row, e)));
            assert(forall|k: int| bar_row(row, k) ==> (r matches Ok(e) ==> e is Bar));
            assert(forall|k: int| #![trigger bar_row(row, k)] bar_row(row, k) && plain_row(row.subrange(0, k))
                && plain_row(row.subrange(k + 1, row.len() as int)) ==> (r matches Ok(Expr::Bar(l, x))
                && product_of(row.subrange(0, k), *l) && product_of(row.subrange(k + 1, row.len() as int), *x)));
            assert(same_length(row, *node));
            assert(row_of(*node, r));
        }
    }
    r
}

/// The index of the first `(` at or after `i`, or the length.
pub open spec fn paren_index(s: Seq<char>, i: int) -> int
    decreases s.len() - i,
{
    if i >= s.len() {
        s.len() as int
    } else if s[i] == '(' {
        i
    } else {
        paren_index(s, i + 1)
    }
}

/// The name of an intent: the text before its `(`, without surrounding white space.
pub open spec fn intent_name(s: Seq<char>) -> Seq<char> {
    trimmed(s.subrange(0, paren_index(s, 0)))
}

/// Whether a descendant of `node`, among the children from position `i` on and their
/// subtrees, carries the argument name `key`.
pub open spec fn holds_arg(node: MarkupNode, key: Seq<char>, i: int) -> bool
    decreases node, node.children@.len() - i,
{
    if i < 0 || i >= node.children@.len() {
        false
    } else {
        node.children@[i].arg@ == key || holds_arg(node.children@[i], key, 0) || holds_arg(
            node,
            key,
            i + 1,
        )
    }
}

/// The first position at or after `i` holding `,` or `)`, or the length.
pub open spec fn param_end(s: Seq<char>, i: int) -> int
    decreases s.len() - i,
{
    if i < 0 || i >= s.len() || s[i] == ',' || s[i] == ')' {
        i
    } else {
        param_end(s, i + 1)
    }
}

/// The argument names of an intent's parameter list from `i` on: each parameter is `$`
/// and a name, with white space around it, the list closed by `)`.
pub open spec fn params_from(s: Seq<char>, i: int) -> Option<Seq<Seq<char>>>
    decreases s.len() - i,
{
    let e = param_end(s, i);
    if i < 0 || e >= s.len() || e < i {
        None
    } else {
        let a = trimmed(s.subrange(i, e));
        if a.len() < 2 || a[0] != '$' {
            None
        } else {
            let key = a.subrange(1, a.len() as int);
            if s[e] == ')' {
                Some(seq![key])
            } else {
                match params_from(s, e + 1) {
                    Some(rest) => Some(seq![key] + rest),
                    None => None,
                }
            }
        }
    }
}

/// The argument names an intent lists: none without `(`.
pub open spec fn intent_params(s: Seq<char>) -> Option<Seq<Seq<char>>> {
    let p = paren_index(s, 0);
    if p >= s.len() {
        Some(Seq::empty())
    } else {
        params_from(s, p + 1)
    }
}

pub open spec fn prepend_keys(pre: Seq<Seq<char>>, r: Option<Seq<Seq<char>>>) -> Option<Seq<Seq<char>>> {
    match r {
        Some(t) => Some(pre + t),
        None => None,
    }
}

/// The first descendant of `node`, among the children from position `i` on and their
/// subtrees (each child before its own subtree), whose `arg` is `key`.
pub open spec fn arg_holder(node: MarkupNode, key: Seq<char>, i: int) -> Option<MarkupNode>
    decreases node, node.children@.len() - i,
{
    if i < 0 || i >= node.children@.len() {
        None
    } else if node.children@[i].arg@ == key {
        Some(node.children@[i])
    } else {
        match arg_holder(node.children@[i], key, 0) {
            Some(h) => Some(h),
            None => arg_holder(node, key, i + 1),
        }
    }
}

/// Arguments that are what the holders of the given names canonicalize to, in order.
pub open spec fn intent_args(node: MarkupNode, keys: Seq<Seq<char>>, args: Seq<Expr>) -> bool
    decreases node, 1int,
{
    &&& args.len() == keys.len()
    &&& forall|j: int| 0 <= j < args.len() ==> arg_ok(node, keys[j], #[trigger] args[j])
}

/// The argument named `key` is what its holder canonicalizes to.
pub open spec fn arg_ok(node: MarkupNode, key: Seq<char>, e: Expr) -> bool
    decreases node, 0int,
    via arg_ok_decreases
{
    arg_holder(node, key, 0) matches Some(h) && canon_describes(h, Ok(e))
}

#[via_fn]
proof fn arg_ok_decreases(node: MarkupNode, key: Seq<char>, e: Expr) {
    if arg_holder(node, key, 0) is Some {
        lemma_holder_below(node, key, 0);
    }
}

/// The holder of an argument lies inside the node.
proof fn lemma_holder_below(node: MarkupNode, key: Seq<char>, i: int)
    requires
        arg_holder(node, key, i) is Some,
    ensures
        decreases_to!(node => arg_holder(node, key, i)->Some_0),
    decreases node, node.children@.len() - i,
{
    let c = node.children@[i];
    assert(decreases_to!(node => c));
    if c.arg@ == key {
    } else if arg_holder(c, key, 0) is Some {
        lemma_holder_below(c, key, 0);
    } else {
        lemma_holder_below(node, key, i + 1);
    }
}

/// Reads an intent: a name, then optionally `(` `$arg`, ... `)`.
fn canon_intent(node: &MarkupNode) -> (r: Result<Expr, MarkupError>)
    ensures
        r matches Ok(e) ==> (e matches Expr::Intent(n, _) && n@ == intent_name(node.intent@)),
        r matches Ok(Expr::Intent(_, args)) ==> intent_params(node.intent@) matches Some(keys) && intent_args(
            *node,
            keys,
            args@,
        ),
    decreases node, 1nat,
{
    let s = &node.intent;
    let mut name: Vec<char> = Vec::new();
    let mut i: usize = 0;
    while i < s.len() && s[i] != '('
        invariant
            i <= s@.len(),
            name@ == s@.subrange(0, i as int),
            paren_index(s@, 0) == paren_index(s@, i as int),
        decreases s.len() - i,
    {
        name.push(s[i]);
        i = i + 1;
        assert(name@ =~= s@.subrange(0, i as int));
    }
    let name = trim(&name);
    assert(name@ == intent_name(s@));
    let mut args: Vec<Expr> = Vec::new();
    let ghost mut keys: Seq<Seq<char>> = Seq::empty();
    if i < s.len() {
        assert(paren_index(s@, 0) == i);
        i = i + 1;
        assert(keys + Seq::<Seq<char>>::empty() =~= keys);
        loop
            invariant
                1 <= i <= s@.len(),
                name@ == intent_name(s@),
                paren_index(s@, 0) < s@.len(),
                intent_params(s@) == prepend_keys(keys, params_from(s@, i as int)),
                intent_args(*node, keys, args@),
                s == &node.intent,
            decreases s.len() - i,
        {
            let mut a: Vec<char> = Vec::new();
            let ghost start = i as int;
            while i < s.len() && s[i] != ',' && s[i] != ')'
                invariant
                    1 <= start <= i <= s@.len(),
                    param_end(s@, start) == param_end(s@, i as int),
                    a@ == s@.subrange(start, i as int),
                decreases s.len() - i,
            {
                a.push(s[i]);
                i = i + 1;
                assert(a@ =~= s@.subrange(start, i as int));
            }
            if i >= s.len() {
                return Err(MarkupError::Malformed);
            }
            let a = trim(&a);
            if a.len() < 2 || a[0] != '$' {
                return Err(MarkupError::Malformed);
            }
            let mut key: Vec<char> = Vec::new();
            let mut k: usize = 1;
            while k < a.len()
                invariant
                    1 <= k <= a@.len(),
                    key@ == a@.subrange(1, k as int),
                decreases a.len() - k,
            {
                key.push(a[k]);
                k = k + 1;
                assert(key@ =~= a@.subrange(1, k as int));
            }
            match canon_arg(node, &key) {
                Some(Ok(e)) => {
                    let ghost before = args@;
                    args.push(e);
                    proof {
                        assert forall|j: int| 0 <= j < args@.len() implies arg_ok(*node, keys.push(key@)[j], #[trigger] args@[j]) by {
                            if j < before.len() {
                                assert(args@[j] == before[j]);
                                assert(keys.push(key@)[j] == keys[j]);
                            }
                        }
                        let rest = params_from(s@, i + 1);
                        if s@[i as int] != ')' {
                            assert(prepend_keys(keys, params_from(s@, start)) == prepend_keys(keys.push(key@), rest)) by {
                                if let Some(t) = rest {
                                    assert(keys + (seq![key@] + t) =~= keys.push(key@) + t);
                                }
                            }
                        }
                        keys = keys.push(key@);
                    }
                },
                Some(Err(e)) => {
                    return Err(e);
                },
                None => {
                    return Err(MarkupError::MissingArgument);
                },
            }
            let stop = s[i] == ')';
            i = i + 1;
            if stop {
                proof {
                    assert(intent_params(s@) == Some(keys)) by {
                        assert(keys.drop_last() + seq![keys.last()] =~= keys);
                    }
                }
                return Ok(Expr::Intent(name, args));
            }
        }
    } else {
        assert(paren_index(s@, 0) >= s@.len());
    }
    Ok(Expr::Intent(name, args))
}

/// Canonicalizes the first descendant of `node` whose `arg` is `key`, if there is one.
fn canon_arg(node: &MarkupNode, key: &Vec<char>) -> (r: Option<Result<Expr, MarkupError>>)
    ensures
        r is Some <==> holds_arg(*node, key@, 0),
        match arg_holder(*node, key@, 0) {
            None => r is None,
            Some(h) => r matches Some(x) && canon_describes(h, x),
        },
    decreases node, 0nat,
{
    let mut i: usize = 0;
    while i < node.children.len()
        invariant
            i <= node.children@.len(),
            holds_arg(*node, key@, 0) == holds_arg(*node, key@, i as int),
            arg_holder(*node, key@, 0) == arg_holder(*node, key@, i as int),
        decreases node.children.len() - i,
    {
        let c = &node.children[i];
        if same_chars(&c.arg, key) {
            return Some(canon(c));
        }
        match canon_arg(c, key) {
            Some(r) => {
                return Some(r);
            },
            None => {},
        }
        i = i + 1;
    }
    None
}

} // verus!
