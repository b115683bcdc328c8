use vstd::prelude::*;

verus! {

/// One token tree of a tag's token stream, reduced to what the parser reads.
/// Literals and delimited groups are atoms: their content never matters here.
/// A token is located by its index in the stream it belongs to.
#[derive(Clone, Debug, PartialEq, Eq)]
pub enum Tok {
    /// A punctuation character; `joint` is true when it is glued to the next one.
    Punct { ch: char, joint: bool },
    /// An identifier or keyword, by its text.
    Ident(String),
    /// A literal.
    Literal,
    /// A delimited group (`(..)`, `[..]`, `{..}`).
    Group,
}

/// Is `t` the punctuation character `c`?
pub open spec fn is_punct(t: Tok, c: char) -> bool {
    match t {
        Tok::Punct { ch, .. } => ch == c,
        _ => false,
    }
}

/// Is `t` the punctuation character `c`, glued to the token after it?
pub open spec fn is_joint_punct(t: Tok, c: char) -> bool {
    match t {
        Tok::Punct { ch, joint } => ch == c && joint,
        _ => false,
    }
}

pub open spec fn is_ident(t: Tok) -> bool {
    t is Ident
}

/// The text of an identifier; empty for any other token.
pub open spec fn ident_text(t: Tok) -> Seq<char> {
    match t {
        Tok::Ident(s) => s@,
        _ => Seq::empty(),
    }
}

/// Is there a token at `i`, before `end`, that is the punctuation `c`?
pub open spec fn punct_at(toks: Seq<Tok>, i: int, end: int, c: char) -> bool {
    0 <= i < end && i < toks.len() && is_punct(toks[i], c)
}

/// Is there a token at `i`, before `end`, that is an identifier?
pub open spec fn ident_at(toks: Seq<Tok>, i: int, end: int) -> bool {
    0 <= i < end && i < toks.len() && is_ident(toks[i])
}

pub fn punct_at_exec(toks: &Vec<Tok>, i: usize, end: usize, c: char) -> (r: bool)
    ensures
        r == punct_at(toks@, i as int, end as int, c),
{
    if i < end && i < toks.len() {
        match &toks[i] {
            Tok::Punct { ch, .. } => *ch == c,
            _ => false,
        }
    } else {
        false
    }
}

pub fn ident_at_exec(toks: &Vec<Tok>, i: usize, end: usize) -> (r: bool)
    ensures
        r == ident_at(toks@, i as int, end as int),
{
    if i < end && i < toks.len() {
        match &toks[i] {
            Tok::Ident(_) => true,
            _ => false,
        }
    } else {
        false
    }
}

/// Is the token at `i` the identifier `word`?
pub fn ident_is(toks: &Vec<Tok>, i: usize, word: &str) -> (r: bool)
    requires
        i < toks.len(),
    ensures
        r == (is_ident(toks@[i as int]) && ident_text(toks@[i as int]) == word@),
{
    match &toks[i] {
        Tok::Ident(s) => str_eq(s.as_str(), word),
        _ => false,
    }
}

/// Character-by-character equality of two strings.
pub fn str_eq(a: &str, b: &str) -> (r: bool)
    ensures
        r == (a@ == b@),
{
    let n = a.unicode_len();
    if n != b.unicode_len() {
        return false;
    }
    let mut i: usize = 0;
    while i < n
        invariant
            n == a@.len(),
            n == b@.len(),
            i <= n,
            a@.subrange(0, i as int) == b@.subrange(0, i as int),
        decreases n - i,
    {
        if a.get_char(i) != b.get_char(i) {
            return false;
        }
        assert(a@.subrange(0, i + 1) == a@.subrange(0, i as int).push(a@[i as int]));
        assert(b@.subrange(0, i + 1) == b@.subrange(0, i as int).push(b@[i as int]));
        i = i + 1;
    }
    assert(a@ == a@.subrange(0, n as int));
    assert(b@ == b@.subrange(0, n as int));
    true
}

} // verus!
