use vstd::prelude::*;
use vstd::string::*;

use crate::token::{ident_at, ident_at_exec, ident_text, punct_at, punct_at_exec, Tok};

verus! {

/// What `str::to_lowercase` returns for a string.
pub uninterp spec fn lower_of(s: Seq<char>) -> Seq<char>;

/// Relies on `str::to_lowercase`: the result depends on the characters alone.
#[verifier::external_body]
fn lowercase(s: &str) -> (r: String)
    ensures
        r@ == lower_of(s@),
{
    s.to_lowercase()
}

/// A `::` separator (two `:` tokens, spacing aside) starts at `i`.
pub open spec fn double_colon_at(toks: Seq<Tok>, i: int) -> bool {
    punct_at(toks, i, toks.len() as int, ':') && punct_at(toks, i + 1, toks.len() as int, ':')
}

/// The path text that the lookahead gathers from `i` on, with the index it stops at.
/// A segment is `:: ident`, or, while `first` holds, a bare `ident`.
pub open spec fn path_from(toks: Seq<Tok>, i: int, first: bool) -> (Seq<char>, int)
    decreases toks.len() - i,
{
    if i < 0 || i >= toks.len() {
        (Seq::empty(), i)
    } else if double_colon_at(toks, i) && ident_at(toks, i + 2, toks.len() as int) {
        let (rest, e) = path_from(toks, i + 3, false);
        (seq![':', ':'] + ident_text(toks[i + 2]) + rest, e)
    } else if !double_colon_at(toks, i) && first && ident_at(toks, i, toks.len() as int) {
        let (rest, e) = path_from(toks, i + 1, false);
        (ident_text(toks[i]) + rest, e)
    } else {
        (Seq::empty(), i)
    }
}

/// A type path that names a component: it is not empty and not all lower case.
pub open spec fn names_component(path: Seq<char>) -> bool {
    path.len() > 0 && lower_of(path) != path
}

/// Is the cursor at `i` on a `::` separator? Returns the index after it.
pub fn double_colon(toks: &Vec<Tok>, i: usize) -> (r: Option<usize>)
    ensures
        r == (if double_colon_at(toks@, i as int) { Some((i + 2) as usize) } else { None::<usize> }),
{
    let n = toks.len();
    if i < n && punct_at_exec(toks, i, n, ':') && i + 1 < n && punct_at_exec(toks, i + 1, n, ':') {
        Some(i + 2)
    } else {
        None
    }
}

/// Lookahead on the tokens after a `<`: do they start a component's type path?
/// The tokens are only read; nothing is consumed.
pub fn peek_type(toks: &Vec<Tok>, start: usize) -> (r: bool)
    ensures
        r == names_component(path_from(toks@, start as int, true).0),
{
    let mut type_str = String::new();
    let mut colons_optional = true;
    let mut cursor = start;
    let ghost whole = path_from(toks@, start as int, true).0;
    let mut going = true;
    while going && cursor < toks.len()
        invariant
            !going ==> path_from(toks@, cursor as int, colons_optional).0 == Seq::<char>::empty(),
            start <= cursor,
            cursor <= toks.len() || cursor == start,
            colons_optional ==> cursor == start && type_str@ == Seq::<char>::empty(),
            whole == type_str@ + path_from(toks@, cursor as int, colons_optional).0,
        decreases toks.len() - cursor, if going { 1int } else { 0int },
    {
        let mut found_colons = false;
        let mut post = cursor;
        match double_colon(toks, cursor) {
            Some(c) => {
                found_colons = true;
                post = c;
            },
            None => {
                if !colons_optional {
                    going = false;
                }
            },
        }
        if going && post < toks.len() && ident_at_exec(toks, post, toks.len()) {
            match &toks[post] {
                Tok::Ident(s) => {
                    if found_colons {
                        type_str.append("::");
                    }
                    type_str.append(s.as_str());
                },
                _ => {},
            }
            proof {
                reveal_strlit("::");
                assert(path_from(toks@, cursor as int, colons_optional).0
                    == (if found_colons { seq![':', ':'] } else { Seq::empty() })
                        + ident_text(toks@[post as int]) + path_from(toks@, post + 1, false).0);
            }
            cursor = post + 1;
            colons_optional = false;
        } else {
            going = false;
        }
    }
    assert(path_from(toks@, cursor as int, colons_optional).0 =~= Seq::<char>::empty());
    assert(whole =~= type_str@);
    if type_str.unicode_len() == 0 {
        return false;
    }
    let lower = lowercase(type_str.as_str());
    !(lower == type_str)
}

} // verus!
