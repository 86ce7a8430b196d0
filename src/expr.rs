//! The canonical expression tree: operators resolved, implicit products and function
//! applications made explicit, fences matched, author intents attached.
use vstd::prelude::*;

verus! {

/// How two factors of a product are joined.
#[derive(Clone, Copy, Debug, PartialEq, Eq, Structural)]
pub enum Times {
    /// A written multiplication sign (`×` or `·`).
    Sign,
    /// An invisible times operator or plain juxtaposition.
    Implicit,
}

/// A leaf of the canonical tree.
#[derive(Clone, Copy, Debug, PartialEq, Eq, Structural)]
pub enum LeafKind {
    Number,
    Ident,
    Text,
    Operator,
}

#[derive(Debug)]
pub enum Expr {
    Empty,
    Leaf(LeafKind, Vec<char>),
    /// A bracketed expression with its opening and closing characters.
    Fenced(char, char, Box<Expr>),
    Abs(Box<Expr>),
    Neg(Box<Expr>),
    /// Operands and the additive operator before each operand after the first.
    Sum(Vec<Expr>, Vec<char>),
    Product(Vec<Expr>, Vec<Times>),
    /// Operands and the relation operator before each operand after the first.
    Relation(Vec<Expr>, Vec<char>),
    Apply(Box<Expr>, Box<Expr>),
    /// A vertical bar between two expressions.
    Bar(Box<Expr>, Box<Expr>),
    List(Vec<Expr>),
    Frac(Box<Expr>, Box<Expr>),
    Sqrt(Box<Expr>),
    Root(Box<Expr>, Box<Expr>),
    Sup(Box<Expr>, Box<Expr>),
    Sub(Box<Expr>, Box<Expr>),
    SubSup(Box<Expr>, Box<Expr>, Box<Expr>),
    /// An expression evaluated at a lower (and possibly an upper) value.
    EvalAt(Box<Expr>, Box<Expr>, Option<Box<Expr>>),
    /// An author-supplied reading: its name and its arguments in order.
    Intent(Vec<char>, Vec<Expr>),
}

} // verus!
