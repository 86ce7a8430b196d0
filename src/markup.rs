//! The markup tree and a reader for its textual (XML) form.
use vstd::prelude::*;
use crate::text::{eq_str, same_chars};

verus! {

/// The element kinds the engine distinguishes.
#[derive(Clone, Copy, Debug, PartialEq, Eq, Structural)]
pub enum Tag {
    Math,
    Row,
    Ident,
    Number,
    Operator,
    Text,
    Fraction,
    Sqrt,
    Root,
    Sup,
    Sub,
    SubSup,
    Style,
}

/// A node of the markup tree: token elements carry text, the others children.
/// `intent` and `arg` hold the author's semantic annotations (empty when absent).
#[derive(Debug)]
pub struct MarkupNode {
    pub tag: Tag,
    pub text: Vec<char>,
    pub intent: Vec<char>,
    pub arg: Vec<char>,
    pub children: Vec<MarkupNode>,
}

/// Why a piece of markup was rejected.
#[derive(Clone, Copy, Debug, PartialEq, Eq, Structural)]
pub enum MarkupError {
    /// The markup is not a well-formed element tree.
    Malformed,
    /// A semantic annotation names an argument that its subtree does not hold.
    MissingArgument,
}

pub open spec fn is_space(c: char) -> bool {
    c == ' ' || c == '\n' || c == '\t' || c == '\r'
}

pub fn is_space_char(c: char) -> (r: bool)
    ensures
        r == is_space(c),
{
    c == ' ' || c == '\n' || c == '\t' || c == '\r'
}

/// Relies on `char::from_u32`: it yields the character with the given code (the only
/// one there is) exactly when the code is a Unicode scalar value (at most 0x10FFFF and
/// outside 0xD800..=0xDFFF).
#[verifier::external_body]
fn char_from_code(n: u32) -> (r: Option<char>)
    ensures
        r matches Some(c) ==> c as u32 == n,
        r matches Some(c) ==> c == (choose|x: char| #[trigger] char_code(x) == n as int),
        r is Some <==> (n <= 0x10FFFF && !(0xD800 <= n <= 0xDFFF)),
{
    char::from_u32(n)
}

fn skip_space(s: &Vec<char>, p: usize) -> (q: usize)
    requires
        p <= s@.len(),
    ensures
        q == skip_sp(s@, p as int),
        p <= q <= s@.len(),
        q == s@.len() || !is_space(s@[q as int]),
{
    let mut q = p;
    while q < s.len() && is_space_char(s[q])
        invariant
            p <= q <= s@.len(),
            skip_sp(s@, p as int) == skip_sp(s@, q as int),
        decreases s.len() - q,
    {
        q = q + 1;
    }
    q
}

pub open spec fn is_name_char(c: char) -> bool {
    ('a' <= c && c <= 'z') || ('A' <= c && c <= 'Z') || ('0' <= c && c <= '9') || c == '-'
        || c == ':' || c == '_'
}

fn is_name_char_exec(c: char) -> (r: bool)
    ensures
        r == is_name_char(c),
{
    ('a' <= c && c <= 'z') || ('A' <= c && c <= 'Z') || ('0' <= c && c <= '9') || c == '-'
        || c == ':' || c == '_'
}

/// Reads a name starting at `p`; the name is empty when no name character stands there.
fn read_name(s: &Vec<char>, p: usize) -> (r: (Vec<char>, usize))
    requires
        p <= s@.len(),
    ensures
        p <= r.1 <= s@.len(),
        r.0@ == s@.subrange(p as int, r.1 as int),
        forall|k: int| p <= k < r.1 ==> is_name_char(#[trigger] s@[k]),
        r.1 == s@.len() || !is_name_char(s@[r.1 as int]),
        r.1 == name_end(s@, p as int),
{
    let mut name: Vec<char> = Vec::new();
    let mut q = p;
    while q < s.len() && is_name_char_exec(s[q])
        invariant
            p <= q <= s@.len(),
            name_end(s@, p as int) == name_end(s@, q as int),
            name@ == s@.subrange(p as int, q as int),
            forall|k: int| p <= k < q ==> is_name_char(#[trigger] s@[k]),
        decreases s.len() - q,
    {
        name.push(s[q]);
        q = q + 1;
        assert(name@ =~= s@.subrange(p as int, q as int));
    }
    (name, q)
}

/// The element kind for a tag name; names the engine does not know are read as rows.
pub open spec fn tag_named(name: Seq<char>) -> Tag {
    if name == "math"@ {
        Tag::Math
    } else if name == "mi"@ {
        Tag::Ident
    } else if name == "mn"@ {
        Tag::Number
    } else if name == "mo"@ {
        Tag::Operator
    } else if name == "mtext"@ {
        Tag::Text
    } else if name == "mfrac"@ {
        Tag::Fraction
    } else if name == "msqrt"@ {
        Tag::Sqrt
    } else if name == "mroot"@ {
        Tag::Root
    } else if name == "msup"@ {
        Tag::Sup
    } else if name == "msub"@ {
        Tag::Sub
    } else if name == "msubsup"@ {
        Tag::SubSup
    } else if name == "mstyle"@ {
        Tag::Style
    } else {
        Tag::Row
    }
}

pub fn tag_of_name(name: &Vec<char>) -> (r: Tag)
    ensures
        r == tag_named(name@),
{
    if eq_str(name, "math") {
        Tag::Math
    } else if eq_str(name, "mi") {
        Tag::Ident
    } else if eq_str(name, "mn") {
        Tag::Number
    } else if eq_str(name, "mo") {
        Tag::Operator
    } else if eq_str(name, "mtext") {
        Tag::Text
    } else if eq_str(name, "mfrac") {
        Tag::Fraction
    } else if eq_str(name, "msqrt") {
        Tag::Sqrt
    } else if eq_str(name, "mroot") {
        Tag::Root
    } else if eq_str(name, "msup") {
        Tag::Sup
    } else if eq_str(name, "msub") {
        Tag::Sub
    } else if eq_str(name, "msubsup") {
        Tag::SubSup
    } else if eq_str(name, "mstyle") {
        Tag::Style
    } else {
        Tag::Row
    }
}

pub open spec fn hex_value(c: char) -> int {
    if '0' <= c && c <= '9' {
        c as int - '0' as int
    } else if 'a' <= c && c <= 'f' {
        c as int - 'a' as int + 10
    } else if 'A' <= c && c <= 'F' {
        c as int - 'A' as int + 10
    } else {
        -1
    }
}

fn hex_digit(c: char) -> (r: Option<u32>)
    ensures
        r matches Some(d) ==> d < 16 && d == hex_value(c),
        r is None ==> hex_value(c) == -1,
{
    if '0' <= c && c <= '9' {
        Some(c as u32 - '0' as u32)
    } else if 'a' <= c && c <= 'f' {
        Some(c as u32 - 'a' as u32 + 10)
    } else if 'A' <= c && c <= 'F' {
        Some(c as u32 - 'A' as u32 + 10)
    } else {
        None
    }
}

/// The five named character references.
pub open spec fn named_reference(name: Seq<char>) -> Option<char> {
    if name == "gt"@ {
        Some('>')
    } else if name == "lt"@ {
        Some('<')
    } else if name == "amp"@ {
        Some('&')
    } else if name == "quot"@ {
        Some('"')
    } else if name == "apos"@ {
        Some('\'')
    } else {
        None
    }
}


/// The value of a digit in base 16 (`hex`) or 10; -1 for any other character.
pub open spec fn digit_value(c: char, hex: bool) -> int {
    if hex {
        hex_value(c)
    } else if '0' <= c && c <= '9' {
        c as int - '0' as int
    } else {
        -1
    }
}

pub open spec fn digits_value(d: Seq<char>, hex: bool) -> int
    decreases d.len(),
{
    if d.len() == 0 {
        0
    } else {
        digits_value(d.drop_last(), hex) * (if hex { 16int } else { 10int }) + digit_value(d.last(), hex)
    }
}

/// The code a numeric reference names: `#` and one to six decimal digits, or `#x`
/// (or `#X`) and one to six hexadecimal digits.
pub open spec fn numeric_reference(name: Seq<char>) -> Option<int> {
    if name.len() < 2 || name[0] != '#' {
        None
    } else {
        let hex = name[1] == 'x' || name[1] == 'X';
        let start: int = if hex { 2 } else { 1 };
        if start >= name.len() || name.len() - start > 6 {
            None
        } else if forall|i: int| start <= i < name.len() ==> digit_value(#[trigger] name[i], hex) >= 0 {
            Some(digits_value(name.subrange(start, name.len() as int), hex))
        } else {
            None
        }
    }
}

pub open spec fn char_code(c: char) -> int {
    c as u32 as int
}

pub open spec fn is_scalar(n: int) -> bool {
    0 <= n <= 0x10FFFF && !(0xD800 <= n <= 0xDFFF)
}

/// The character a reference stands for, when it stands for one.
pub open spec fn reference_char(name: Seq<char>) -> Option<char> {
    match named_reference(name) {
        Some(c) => Some(c),
        None => match numeric_reference(name) {
            Some(n) => if is_scalar(n) { Some(choose|c: char| #[trigger] char_code(c) == n) } else { None },
            None => None,
        },
    }
}

/// Decodes the character reference whose name (the text between `&` and `;`) is given:
/// the five named ones, and `#` followed by a decimal or `#x` by a hexadecimal code.
fn decode_reference(name: &Vec<char>) -> (r: Option<char>)
    ensures
        r == reference_char(name@),
{
    if eq_str(name, "gt") {
        return Some('>');
    } else if eq_str(name, "lt") {
        return Some('<');
    } else if eq_str(name, "amp") {
        return Some('&');
    } else if eq_str(name, "quot") {
        return Some('"');
    } else if eq_str(name, "apos") {
        return Some('\'');
    }
    if name.len() < 2 || name[0] != '#' {
        return None;
    }
    let hex = name[1] == 'x' || name[1] == 'X';
    let start: usize = if hex { 2 } else { 1 };
    if start >= name.len() || name.len() - start > 6 {
        return None;
    }
    let mut code: u32 = 0;
    let mut i = start;
    while i < name.len()
        invariant
            start <= i <= name@.len(),
            name@.len() - start <= 6,
            name@.len() >= 2 && name@[0] == '#',
            named_reference(name@) is None,
            hex == (name@[1] == 'x' || name@[1] == 'X'),
            start == (if hex { 2usize } else { 1usize }),
            code as int == digits_value(name@.subrange(start as int, i as int), hex),
            forall|k: int| start <= k < i ==> digit_value(#[trigger] name@[k], hex) >= 0,
            code < pow16((i - start) as nat),
        decreases name.len() - i,
    {
        let d = match hex_digit(name[i]) {
            Some(d) => d,
            None => {
                assert(digit_value(name@[i as int], hex) < 0);
                return None;
            },
        };
        if !hex && d > 9 {
            assert(digit_value(name@[i as int], hex) < 0);
            return None;
        }
        proof {
            lemma_pow16_step((i - start) as nat);
            let p = name@.subrange(start as int, i + 1);
            assert(p.drop_last() =~= name@.subrange(start as int, i as int));
            assert(digit_value(name@[i as int], hex) == d);
        }
        code = if hex { code * 16 + d } else { code * 10 + d };
        i = i + 1;
    }
    assert(name@.subrange(start as int, name@.len() as int) =~= name@.subrange(start as int, i as int));
    let r = char_from_code(code);
    r
}

pub open spec fn pow16(n: nat) -> nat
    decreases n,
{
    if n == 0 {
        1
    } else {
        16 * pow16((n - 1) as nat)
    }
}

proof fn lemma_pow16_step(n: nat)
    requires
        n < 6,
    ensures
        pow16(n + 1) == 16 * pow16(n),
        pow16(n + 1) <= 16777216,
{
    reveal_with_fuel(pow16, 7);
}


/// The first position at or after `e` holding `;` or `<`, or the length.
pub open spec fn ref_end(s: Seq<char>, e: int) -> int
    decreases s.len() - e,
{
    if e < 0 || e >= s.len() || s[e] == ';' || s[e] == '<' {
        e
    } else {
        ref_end(s, e + 1)
    }
}

pub open spec fn prepend(pre: Seq<char>, r: Option<(Seq<char>, int)>) -> Option<(Seq<char>, int)> {
    match r {
        Some((t, end)) => Some((pre + t, end)),
        None => None,
    }
}

/// The text from `q` up to the next `<` (or the end), with its character references
/// decoded, and the position where it stops; `None` when a reference is unterminated
/// or stands for no character.
pub open spec fn raw_text(s: Seq<char>, q: int) -> Option<(Seq<char>, int)>
    decreases s.len() - q,
{
    if q < 0 || q > s.len() {
        None
    } else if q == s.len() || s[q] == '<' {
        Some((Seq::empty(), q))
    } else if s[q] == '&' {
        let e = ref_end(s, q + 1);
        if e >= s.len() || s[e] != ';' || e <= q {
            None
        } else {
            match reference_char(s.subrange(q + 1, e)) {
                None => None,
                Some(c) => prepend(seq![c], raw_text(s, e + 1)),
            }
        }
    } else {
        prepend(seq![s[q]], raw_text(s, q + 1))
    }
}

proof fn lemma_prepend(a: Seq<char>, b: Seq<char>, r: Option<(Seq<char>, int)>)
    ensures
        prepend(a, prepend(b, r)) == prepend(a + b, r),
{
    if let Some((t, end)) = r {
        assert(a + (b + t) =~= (a + b) + t);
    }
}

/// Reads the text of a token element up to the next `<`, decoding references and
/// trimming surrounding white space.
fn read_text(s: &Vec<char>, p: usize) -> (r: Result<(Vec<char>, usize), MarkupError>)
    requires
        p <= s@.len(),
    ensures
        r matches Ok((_, q)) ==> p <= q <= s@.len(),
        r matches Err(e) ==> e == MarkupError::Malformed,
        match raw_text(s@, p as int) {
            None => r is Err,
            Some((t, end)) => r matches Ok((x, q)) && x@ == trimmed(t) && q == end,
        },
{
    let mut out: Vec<char> = Vec::new();
    let mut q = p;
    while q < s.len() && s[q] != '<'
        invariant
            p <= q <= s@.len(),
            raw_text(s@, p as int) == prepend(out@, raw_text(s@, q as int)),
        decreases s.len() - q,
    {
        if s[q] == '&' {
            let mut e = q + 1;
            let mut name: Vec<char> = Vec::new();
            while e < s.len() && s[e] != ';' && s[e] != '<'
                invariant
                    q < e <= s@.len(),
                    ref_end(s@, q + 1) == ref_end(s@, e as int),
                    name@ == s@.subrange(q + 1, e as int),
                decreases s.len() - e,
            {
                name.push(s[e]);
                e = e + 1;
                assert(name@ =~= s@.subrange(q + 1, e as int));
            }
            if e >= s.len() || s[e] != ';' {
                return Err(MarkupError::Malformed);
            }
            match decode_reference(&name) {
                Some(c) => {
                    proof {
                        lemma_prepend(out@, seq![c], raw_text(s@, e + 1));
                    }
                    out.push(c);
                },
                None => {
                    return Err(MarkupError::Malformed);
                },
            }
            q = e + 1;
        } else {
            proof {
                lemma_prepend(out@, seq![s@[q as int]], raw_text(s@, q + 1));
            }
            out.push(s[q]);
            q = q + 1;
        }
    }
    proof {
        if let Some((t, end)) = raw_text(s@, q as int) {
            assert(t =~= Seq::<char>::empty());
            assert(out@ + t =~= out@);
        }
    }
    Ok((trim(&out), q))
}

/// The sequence without its leading white space.
pub open spec fn trim_front(v: Seq<char>) -> Seq<char>
    decreases v.len(),
{
    if v.len() > 0 && is_space(v[0]) {
        trim_front(v.drop_first())
    } else {
        v
    }
}

/// The sequence without its trailing white space.
pub open spec fn trim_back(v: Seq<char>) -> Seq<char>
    decreases v.len(),
{
    if v.len() > 0 && is_space(v.last()) {
        trim_back(v.drop_last())
    } else {
        v
    }
}

/// The sequence without white space at either end.
pub open spec fn trimmed(v: Seq<char>) -> Seq<char> {
    trim_back(trim_front(v))
}

proof fn lemma_trim_front(v: Seq<char>, lo: int)
    requires
        0 <= lo <= v.len(),
        forall|k: int| 0 <= k < lo ==> is_space(#[trigger] v[k]),
        lo == v.len() || !is_space(v[lo]),
    ensures
        trim_front(v) == v.subrange(lo, v.len() as int),
    decreases lo,
{
    if lo == 0 {
        assert(v.subrange(0, v.len() as int) =~= v);
    } else {
        let w = v.drop_first();
        assert forall|k: int| 0 <= k < lo - 1 implies is_space(#[trigger] w[k]) by {
            assert(w[k] == v[k + 1]);
        }
        lemma_trim_front(w, lo - 1);
        assert(w.subrange(lo - 1, w.len() as int) =~= v.subrange(lo, v.len() as int));
    }
}

proof fn lemma_trim_back(v: Seq<char>, hi: int)
    requires
        0 <= hi <= v.len(),
        forall|k: int| hi <= k < v.len() ==> is_space(#[trigger] v[k]),
        hi == 0 || !is_space(v[hi - 1]),
    ensures
        trim_back(v) == v.subrange(0, hi),
    decreases v.len() - hi,
{
    if hi == v.len() {
        assert(v.subrange(0, hi) =~= v);
    } else {
        let w = v.drop_last();
        assert forall|k: int| hi <= k < w.len() implies is_space(#[trigger] w[k]) by {
            assert(w[k] == v[k]);
        }
        lemma_trim_back(w, hi);
        assert(w.subrange(0, hi) =~= v.subrange(0, hi));
    }
}

pub fn trim(v: &Vec<char>) -> (r: Vec<char>)
    ensures
        r@ == trimmed(v@),
{
    let mut lo: usize = 0;
    while lo < v.len() && is_space_char(v[lo])
        invariant
            lo <= v@.len(),
            forall|k: int| 0 <= k < lo ==> is_space(#[trigger] v@[k]),
        decreases v.len() - lo,
    {
        lo = lo + 1;
    }
    proof {
        lemma_trim_front(v@, lo as int);
    }
    let ghost f = v@.subrange(lo as int, v@.len() as int);
    let mut hi: usize = v.len();
    while hi > lo && is_space_char(v[hi - 1])
        invariant
            lo <= hi <= v@.len(),
            forall|k: int| hi <= k < v@.len() ==> is_space(#[trigger] v@[k]),
        decreases hi,
    {
        hi = hi - 1;
    }
    proof {
        assert forall|k: int| hi - lo <= k < f.len() implies is_space(#[trigger] f[k]) by {
            assert(f[k] == v@[k + lo]);
        }
        if hi > lo {
            assert(f[hi - lo - 1] == v@[hi - 1]);
        }
        lemma_trim_back(f, hi - lo);
        assert(f.subrange(0, hi - lo) =~= v@.subrange(lo as int, hi as int));
    }
    let mut r: Vec<char> = Vec::new();
    let mut i = lo;
    while i < hi
        invariant
            lo <= i <= hi <= v@.len(),
            r@ == v@.subrange(lo as int, i as int),
        decreases hi - i,
    {
        r.push(v[i]);
        i = i + 1;
        assert(r@ =~= v@.subrange(lo as int, i as int));
    }
    r
}


/// The first position at or after `p` that is not white space.
pub open spec fn skip_sp(s: Seq<char>, p: int) -> int
    decreases s.len() - p,
{
    if p < 0 || p >= s.len() || !is_space(s[p]) {
        p
    } else {
        skip_sp(s, p + 1)
    }
}

/// The end of the name that starts at `p`.
pub open spec fn name_end(s: Seq<char>, p: int) -> int
    decreases s.len() - p,
{
    if p < 0 || p >= s.len() || !is_name_char(s[p]) {
        p
    } else {
        name_end(s, p + 1)
    }
}

/// The first position at or after `p` holding `c`, or the length.
pub open spec fn find_char(s: Seq<char>, p: int, c: char) -> int
    decreases s.len() - p,
{
    if p < 0 || p >= s.len() || s[p] == c {
        p
    } else {
        find_char(s, p + 1, c)
    }
}

/// The attributes of a start tag from `q0` on, with the `intent` and `arg` values read
/// so far: the position after the tag, whether it closed itself, and the two values.
pub open spec fn attributes(s: Seq<char>, q0: int, intent: Seq<char>, arg: Seq<char>) -> Option<(int, bool, Seq<char>, Seq<char>)>
    decreases s.len() - q0,
{
    let q = skip_sp(s, q0);
    if q < 0 || q >= s.len() {
        None
    } else if s[q] == '>' {
        Some((q + 1, false, intent, arg))
    } else if s[q] == '/' {
        if q + 1 < s.len() && s[q + 1] == '>' { Some((q + 2, true, intent, arg)) } else { None }
    } else {
        let e1 = name_end(s, q);
        let e2 = skip_sp(s, e1);
        let e3 = skip_sp(s, e2 + 1);
        if e1 == q || e2 >= s.len() || s[e2] != '=' || e3 >= s.len() || (s[e3] != '"' && s[e3] != '\'') {
            None
        } else {
            let v = find_char(s, e3 + 1, s[e3]);
            let name = s.subrange(q, e1);
            let value = s.subrange(e3 + 1, v);
            if v >= s.len() || v + 1 <= q0 {
                None
            } else if name == "intent"@ {
                attributes(s, v + 1, value, arg)
            } else if name == "arg"@ {
                attributes(s, v + 1, intent, value)
            } else {
                attributes(s, v + 1, intent, arg)
            }
        }
    }
}

/// Reads the attributes of a start tag; `r.1` tells whether the element closed itself.
fn read_attributes(s: &Vec<char>, p: usize, node: &mut MarkupNode) -> (r: Result<(usize, bool), MarkupError>)
    requires
        p <= s@.len(),
    ensures
        r matches Ok((q, _)) ==> p < q <= s@.len(),
        r matches Err(e) ==> e == MarkupError::Malformed,
        final(node).tag == old(node).tag,
        final(node).children@ == old(node).children@,
        final(node).text@ == old(node).text@,
        match attributes(s@, p as int, old(node).intent@, old(node).arg@) {
            None => r is Err,
            Some((q, closed, i, a)) => r matches Ok((q2, c2)) && q2 == q && c2 == closed
                && final(node).intent@ == i && final(node).arg@ == a,
        },
{
    let mut q = p;
    loop
        invariant
            p <= q <= s@.len(),
            node.tag == old(node).tag,
            node.children@ == old(node).children@,
            node.text@ == old(node).text@,
            attributes(s@, p as int, old(node).intent@, old(node).arg@) == attributes(s@, q as int, node.intent@, node.arg@),
        decreases s.len() - q,
    {
        let ghost q0 = q;
        q = skip_space(s, q);
        if q >= s.len() {
            return Err(MarkupError::Malformed);
        }
        if s[q] == '>' {
            return Ok((q + 1, false));
        }
        if s[q] == '/' {
            if q + 1 < s.len() && s[q + 1] == '>' {
                return Ok((q + 2, true));
            }
            return Err(MarkupError::Malformed);
        }
        let (name, e) = read_name(s, q);
        if e == q {
            return Err(MarkupError::Malformed);
        }
        let e = skip_space(s, e);
        if e >= s.len() || s[e] != '=' {
            return Err(MarkupError::Malformed);
        }
        let e = skip_space(s, e + 1);
        if e >= s.len() || (s[e] != '"' && s[e] != '\'') {
            return Err(MarkupError::Malformed);
        }
        let quote = s[e];
        let mut v = e + 1;
        let mut value: Vec<char> = Vec::new();
        while v < s.len() && s[v] != quote
            invariant
                e < v <= s@.len(),
                quote == s@[e as int],
                find_char(s@, e + 1, quote) == find_char(s@, v as int, quote),
                value@ == s@.subrange(e + 1, v as int),
            decreases s.len() - v,
        {
            value.push(s[v]);
            v = v + 1;
            assert(value@ =~= s@.subrange(e + 1, v as int));
        }
        if v >= s.len() {
            return Err(MarkupError::Malformed);
        }
        if eq_str(&name, "intent") {
            node.intent = value;
        } else if eq_str(&name, "arg") {
            node.arg = value;
        }
        q = v + 1;
    }
}


pub open spec fn token_tag(t: Tag) -> bool {
    t == Tag::Ident || t == Tag::Number || t == Tag::Operator || t == Tag::Text
}

/// A start tag at `p` (after white space): where it starts, where its name ends, the
/// position after it, whether it closes itself, and its `intent` and `arg` values.
pub open spec fn start_tag(s: Seq<char>, p: int) -> Option<(int, int, int, bool, Seq<char>, Seq<char>)> {
    let st = skip_sp(s, p);
    if st < 0 || st >= s.len() || s[st] != '<' {
        None
    } else {
        let ne = name_end(s, st + 1);
        if ne == st + 1 {
            None
        } else {
            match attributes(s, ne, Seq::empty(), Seq::empty()) {
                None => None,
                Some((q, closed, i, a)) => Some((st, ne, q, closed, i, a)),
            }
        }
    }
}

/// Where the content of an element after its start tag begins: after the text of a
/// token element, else right after the tag.
pub open spec fn content_start(s: Seq<char>, tag: Tag, q: int) -> int {
    if token_tag(tag) {
        match raw_text(s, q) {
            Some((_, e)) => e,
            None => -1,
        }
    } else {
        q
    }
}

/// The end of the content from `q` on of an element named `name`: child elements, text
/// between them (which is passed over), and the closing tag.
pub open spec fn children_end(s: Seq<char>, q: int, name: Seq<char>) -> Option<int>
    decreases s.len() - q, 1int,
{
    if q < 0 || q >= s.len() {
        None
    } else if s[q] == '<' {
        if q + 1 < s.len() && s[q + 1] == '/' {
            let e = name_end(s, q + 2);
            let e2 = skip_sp(s, e);
            if s.subrange(q + 2, e) == name && 0 <= e2 < s.len() && s[e2] == '>' {
                Some(e2 + 1)
            } else {
                None
            }
        } else {
            match element_end(s, q) {
                Some(e) => if q < e <= s.len() { children_end(s, e, name) } else { None },
                None => None,
            }
        }
    } else {
        children_end(s, q + 1, name)
    }
}

/// The position right after the element that starts at `p` (after white space), if a
/// well-formed element starts there.
pub open spec fn element_end(s: Seq<char>, p: int) -> Option<int>
    decreases s.len() - p, 0int,
{
    match start_tag(s, p) {
        None => None,
        Some((st, ne, q, closed, _, _)) => if closed {
            Some(q)
        } else {
            let c = content_start(s, tag_named(s.subrange(st + 1, ne)), q);
            if c <= p || c > s.len() {
                None
            } else {
                children_end(s, c, s.subrange(st + 1, ne))
            }
        },
    }
}

/// The start positions of the child elements in the content from `q` on.
pub open spec fn child_starts(s: Seq<char>, q: int, name: Seq<char>) -> Seq<int>
    decreases s.len() - q,
{
    if q < 0 || q >= s.len() {
        Seq::empty()
    } else if s[q] == '<' {
        if q + 1 < s.len() && s[q + 1] == '/' {
            Seq::empty()
        } else {
            match element_end(s, q) {
                Some(e) => if q < e <= s.len() { seq![q] + child_starts(s, e, name) } else { Seq::empty() },
                None => Seq::empty(),
            }
        }
    } else {
        child_starts(s, q + 1, name)
    }
}

/// Whether `node` is the element that starts at `p`: its tag from the tag name, its
/// `intent` and `arg` values, for a token element its decoded and trimmed text, and its
/// children, in order, the elements in its content.
pub open spec fn element_matches(s: Seq<char>, p: int, node: MarkupNode) -> bool
    decreases node,
{
    match start_tag(s, p) {
        None => false,
        Some((st, ne, q, closed, i, a)) => {
            &&& node.tag == tag_named(s.subrange(st + 1, ne))
            &&& node.intent@ == i
            &&& node.arg@ == a
            &&& if closed {
                node.text@.len() == 0 && node.children@.len() == 0
            } else {
                let starts = child_starts(s, content_start(s, node.tag, q), s.subrange(st + 1, ne));
                &&& node.text@ == (if token_tag(node.tag) { trimmed(raw_text(s, q)->Some_0.0) } else { Seq::empty() })
                &&& node.children@.len() == starts.len()
                &&& forall|k: int| 0 <= k < starts.len() ==> element_matches(s, #[trigger] starts[k], node.children@[k])
            }
        },
    }
}

/// Reads one element starting at `p` (after optional white space), with everything inside it.
pub fn read_element(s: &Vec<char>, p: usize) -> (r: Result<(MarkupNode, usize), MarkupError>)
    requires
        p <= s@.len(),
    ensures
        r matches Ok((_, q)) ==> p < q <= s@.len(),
        r matches Err(e) ==> e == MarkupError::Malformed,
        match element_end(s@, p as int) {
            None => r is Err,
            Some(q) => r matches Ok((n, e)) && e == q && element_matches(s@, p as int, n),
        },
    decreases s@.len() - p,
{
    let start = skip_space(s, p);
    if start >= s.len() || s[start] != '<' {
        return Err(MarkupError::Malformed);
    }
    let (name, q) = read_name(s, start + 1);
    if q == start + 1 {
        return Err(MarkupError::Malformed);
    }
    let tag = tag_of_name(&name);
    let mut node = MarkupNode {
        tag,
        text: Vec::new(),
        intent: Vec::new(),
        arg: Vec::new(),
        children: Vec::new(),
    };
    assert(node.intent@ =~= Seq::<char>::empty());
    assert(node.arg@ =~= Seq::<char>::empty());
    let (mut q, closed) = match read_attributes(s, q, &mut node) {
        Ok(x) => x,
        Err(e) => {
            return Err(e);
        },
    };
    if closed {
        return Ok((node, q));
    }
    let ghost after_tag = q as int;
    if tag == Tag::Ident || tag == Tag::Number || tag == Tag::Operator || tag == Tag::Text {
        match read_text(s, q) {
            Ok((t, e)) => {
                node.text = t;
                q = e;
            },
            Err(e) => {
                return Err(e);
            },
        }
    } else {
        assert(node.text@ =~= Seq::<char>::empty());
    }
    let ghost c = q as int;
    let ghost tag_name = name@;
    let ghost text0 = node.text@;
    let ghost intent0 = node.intent@;
    let ghost arg0 = node.arg@;
    let ghost mut starts: Seq<int> = Seq::empty();
    assert(node.children@ =~= Seq::<MarkupNode>::empty());
    loop
        invariant
            p <= start < c <= q <= s@.len(),
            name@ == tag_name,
            tag_name == s@.subrange(start + 1, name_end(s@, start + 1)),
            start_tag(s@, p as int) matches Some((st, ne, aq, cl, i, a)) && st == start && ne == name_end(
                s@,
                start + 1,
            ) && aq == after_tag && !cl && i == intent0 && a == arg0,
            node.tag == tag && tag == tag_named(tag_name),
            c == content_start(s@, tag, after_tag),
            node.text@ == text0,
            text0 == (if token_tag(tag) { trimmed(raw_text(s@, after_tag)->Some_0.0) } else { Seq::empty() }),
            node.intent@ == intent0,
            node.arg@ == arg0,
            children_end(s@, c, tag_name) == children_end(s@, q as int, tag_name),
            child_starts(s@, c, tag_name) == starts + child_starts(s@, q as int, tag_name),
            node.children@.len() == starts.len(),
            forall|k: int| 0 <= k < starts.len() ==> element_matches(s@, #[trigger] starts[k], node.children@[k]),
        decreases s.len() - q,
    {
        if q >= s.len() {
            return Err(MarkupError::Malformed);
        }
        if s[q] == '<' {
            if q + 1 < s.len() && s[q + 1] == '/' {
                let (end, e) = read_name(s, q + 2);
                if !same_chars(&end, &name) {
                    return Err(MarkupError::Malformed);
                }
                let e = skip_space(s, e);
                if e >= s.len() || s[e] != '>' {
                    return Err(MarkupError::Malformed);
                }
                proof {
                    assert(child_starts(s@, q as int, tag_name) =~= Seq::<int>::empty());
                    assert(starts + Seq::<int>::empty() =~= starts);
                }
                return Ok((node, e + 1));
            }
            match read_element(s, q) {
                Ok((child, e)) => {
                    proof {
                        assert(child_starts(s@, q as int, tag_name) == seq![q as int] + child_starts(s@, e as int, tag_name));
                        assert(starts + (seq![q as int] + child_starts(s@, e as int, tag_name)) =~= starts.push(q as int) + child_starts(s@, e as int, tag_name));
                    }
                    node.children.push(child);
                    proof {
                        starts = starts.push(q as int);
                    }
                    q = e;
                },
                Err(e) => {
                    return Err(e);
                },
            }
        } else {
            // text directly inside a layout element carries no meaning
            q = q + 1;
        }
    }
}

/// A document: one well-formed element, with only white space after it.
pub open spec fn well_formed(s: Seq<char>) -> bool {
    element_end(s, 0) matches Some(q) && skip_sp(s, q) == s.len()
}

/// Reads a whole markup document: one element, with only white space after it.
pub fn parse_markup(s: &Vec<char>) -> (r: Result<MarkupNode, MarkupError>)
    ensures
        r is Ok <==> well_formed(s@),
        r matches Ok(n) ==> element_matches(s@, 0, n),
        r matches Err(e) ==> e == MarkupError::Malformed,
{
    match read_element(s, 0) {
        Ok((node, q)) => {
            let e = skip_space(s, q);
            if e != s.len() {
                Err(MarkupError::Malformed)
            } else {
                Ok(node)
            }
        },
        Err(e) => Err(e),
    }
}

} // verus!
