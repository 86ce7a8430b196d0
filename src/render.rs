//! The token stream produced by rule matching, and its folding into one spoken string.
use vstd::prelude::*;
use crate::text::push_all;

verus! {

/// A pause between spoken phrases: a comma-sized one or a semicolon-sized one.
#[derive(Clone, Copy, Debug, PartialEq, Eq, Structural)]
pub enum Pause {
    Short,
    Long,
}

/// One unit of the intermediate stream.
#[derive(Clone, Debug)]
pub enum Token {
    Word(Vec<char>),
    Pause(Pause),
}

/// What a token stands for, with its text as a sequence of characters.
pub enum TokenModel {
    Word(Seq<char>),
    Pause(Pause),
}

impl View for Token {
    type V = TokenModel;

    open spec fn view(&self) -> TokenModel {
        match self {
            Token::Word(w) => TokenModel::Word(w@),
            Token::Pause(p) => TokenModel::Pause(*p),
        }
    }
}

pub open spec fn tokens_view(ts: Seq<Token>) -> Seq<TokenModel> {
    ts.map_values(|t: Token| t@)
}

/// The stronger of a pending pause and a new one.
pub open spec fn merge_pause(pending: Option<Pause>, p: Pause) -> Pause {
    match pending {
        Some(Pause::Long) => Pause::Long,
        _ => p,
    }
}

pub open spec fn pause_char(p: Pause) -> char {
    match p {
        Pause::Short => ',',
        Pause::Long => ';',
    }
}

/// What stands between the text so far and the next word.
pub open spec fn separator(out: Seq<char>, pending: Option<Pause>) -> Seq<char> {
    match pending {
        Some(p) => seq![pause_char(p), ' '],
        None => if out.len() == 0 { Seq::empty() } else { seq![' '] },
    }
}

/// One step of the fold: the text so far and the pause waiting to be placed.
pub open spec fn render_step(
    st: (Seq<char>, Option<Pause>),
    t: TokenModel,
) -> (Seq<char>, Option<Pause>) {
    match t {
        TokenModel::Word(w) => if w.len() == 0 {
            st
        } else {
            (st.0 + separator(st.0, st.1) + w, None)
        },
        TokenModel::Pause(p) => (st.0, Some(merge_pause(st.1, p))),
    }
}

pub open spec fn render_state(ts: Seq<TokenModel>) -> (Seq<char>, Option<Pause>)
    decreases ts.len(),
{
    if ts.len() == 0 {
        (Seq::empty(), None)
    } else {
        render_step(render_state(ts.drop_last()), ts.last())
    }
}

/// The spoken text of a token stream: words joined by spaces, each run of pauses
/// written as one comma or semicolon (the stronger wins) after the preceding word,
/// and a pause with no word after it dropped.
pub open spec fn rendered(ts: Seq<TokenModel>) -> Seq<char> {
    render_state(ts).0
}

/// Folds a token stream into its spoken text.
pub fn render(ts: &Vec<Token>) -> (r: Vec<char>)
    ensures
        r@ == rendered(tokens_view(ts@)),
{
    let mut out: Vec<char> = Vec::new();
    let mut pending: Option<Pause> = None;
    let mut i: usize = 0;
    while i < ts.len()
        invariant
            i <= ts@.len(),
            (out@, pending) == render_state(tokens_view(ts@.subrange(0, i as int))),
        decreases ts.len() - i,
    {
        let ghost before = tokens_view(ts@.subrange(0, i as int));
        proof {
            let next = tokens_view(ts@.subrange(0, i + 1));
            assert(next.drop_last() =~= before);
            assert(next.last() == ts@[i as int]@);
        }
        match &ts[i] {
            Token::Word(w) => {
                if w.len() > 0 {
                    match pending {
                        Some(p) => {
                            out.push(if p == Pause::Short { ',' } else { ';' });
                            out.push(' ');
                        },
                        None => {
                            if out.len() > 0 {
                                out.push(' ');
                            }
                        },
                    }
                    let ghost mid = out@;
                    push_all(&mut out, w);
                    pending = None;
                    proof {
                        let st = render_state(before);
                        assert(mid =~= st.0 + separator(st.0, st.1));
                    }
                }
            },
            Token::Pause(p) => {
                pending = match pending {
                    Some(Pause::Long) => Some(Pause::Long),
                    _ => Some(*p),
                };
            },
        }
        i = i + 1;
    }
    assert(ts@.subrange(0, ts@.len() as int) =~= ts@);
    out
}

} // verus!
