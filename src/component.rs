use vstd::prelude::*;

use crate::classify::{names_component, path_from, peek_type};
use crate::error::{err, ErrorKind, ParseError, ValueScan};
use crate::props::{list_props, prop_kind, props_view, with_props, ListProps, PropSpec, PropType, Props, WithProps};
use crate::token::{ident_at, ident_at_exec, is_joint_punct, is_punct, punct_at, punct_at_exec, Tok};

verus! {

/// A component's type path: the tokens `lo..hi`.
#[derive(Clone, Copy, Debug, PartialEq, Eq, Structural)]
pub struct TypePath {
    pub lo: usize,
    pub hi: usize,
}

/// A parsed component: its type and its properties.
pub struct HtmlComponentInner {
    pub ty: TypePath,
    pub props: Option<Props>,
}

/// A parsed component tag `< .. />`.
pub struct HtmlComponent(pub HtmlComponentInner);

/// What a parsed component means.
pub struct InnerModel {
    pub ty: TypePath,
    pub props: PropSpec,
}

impl View for HtmlComponentInner {
    type V = InnerModel;

    open spec fn view(&self) -> InnerModel {
        InnerModel { ty: self.ty, props: props_view(self.props) }
    }
}

/// A `::` token at `j` (a `:` glued to a second `:`), before `end`.
pub open spec fn path_sep_at(toks: Seq<Tok>, j: int, end: int) -> bool {
    0 <= j && j + 1 < end && end <= toks.len() && is_joint_punct(toks[j], ':') && is_punct(toks[j + 1], ':')
}

/// The end of the `:: name` segments that start at `j`.
pub open spec fn segments_end(toks: Seq<Tok>, j: int, end: int) -> Result<int, ParseError>
    decreases end - j,
{
    if path_sep_at(toks, j, end) {
        if j + 2 >= end {
            Err(err(ErrorKind::UnexpectedEndOfInput, end, end))
        } else if !ident_at(toks, j + 2, end) {
            Err(err(ErrorKind::ExpectedIdent, j + 2, j + 2))
        } else {
            segments_end(toks, j + 3, end)
        }
    } else {
        Ok(j)
    }
}

/// The end of the type path at `i`: an optional leading `::`, a name, then `:: name` segments.
pub open spec fn type_end(toks: Seq<Tok>, i: int, end: int) -> Result<int, ParseError> {
    let s = if path_sep_at(toks, i, end) { i + 2 } else { i };
    if s >= end {
        Err(err(ErrorKind::UnexpectedEndOfInput, end, end))
    } else if !ident_at(toks, s, end) {
        Err(err(ErrorKind::ExpectedIdent, s, s))
    } else {
        segments_end(toks, s + 1, end)
    }
}

/// Nothing may be left over after the component's parts.
pub open spec fn finish(m: InnerModel, e: int, end: int) -> Result<InnerModel, ParseError> {
    if e < end {
        Err(err(ErrorKind::UnexpectedToken, e, e))
    } else {
        Ok(m)
    }
}

/// The tokens `start..end`, all of them, as a type path, an optional `:`, and properties.
pub open spec fn inner_parse(toks: Seq<Tok>, scan: Seq<ValueScan>, start: int, end: int) -> Result<InnerModel, ParseError> {
    match type_end(toks, start, end) {
        Err(x) => Err(x),
        Ok(t) => {
            let ty = TypePath { lo: start as usize, hi: t as usize };
            let p = if punct_at(toks, t, end, ':') { t + 1 } else { t };
            match prop_kind(toks, p, end) {
                None => finish(InnerModel { ty, props: PropSpec::Absent }, p, end),
                Some(PropType::List) => match list_props(toks, scan, p, end) {
                    Ok((s, e)) => finish(InnerModel { ty, props: PropSpec::List(s) }, e, end),
                    Err(x) => Err(x),
                },
                Some(PropType::With) => match with_props(toks, p, end) {
                    Ok((w, e)) => finish(InnerModel { ty, props: PropSpec::With(w) }, e, end),
                    Err(x) => Err(x),
                },
            }
        },
    }
}

/// The end of a tag, from `j` at angle depth `depth`: a `/` right before a `>` at
/// depth one closes it with `Some` of the `/`; a `>` that takes the depth to zero
/// closes it with `None`. Returns the index of the closing `>` too.
pub open spec fn suffix_from(toks: Seq<Tok>, j: int, depth: nat) -> Result<(Option<int>, int), ParseError>
    decreases toks.len() - j,
{
    if j < 0 || j >= toks.len() {
        Err(err(ErrorKind::UnexpectedEndOfInput, toks.len() as int, toks.len() as int))
    } else if is_punct(toks[j], '>') {
        if depth <= 1 {
            Ok((None, j))
        } else {
            suffix_from(toks, j + 1, (depth - 1) as nat)
        }
    } else if is_punct(toks[j], '<') {
        suffix_from(toks, j + 1, depth + 1)
    } else if is_punct(toks[j], '/') && depth == 1 && j + 1 < toks.len() && is_punct(toks[j + 1], '>') {
        Ok((Some(j), j + 1))
    } else {
        suffix_from(toks, j + 1, depth)
    }
}

/// A component tag at the start of `toks`: the component, and how many tokens it takes.
pub open spec fn component_parse(toks: Seq<Tok>, scan: Seq<ValueScan>) -> Result<(InnerModel, int), ParseError> {
    if toks.len() == 0 {
        Err(err(ErrorKind::UnexpectedEndOfInput, 0, 0))
    } else if !is_punct(toks[0], '<') {
        Err(err(ErrorKind::UnexpectedToken, 0, 0))
    } else {
        match suffix_from(toks, 1, 1) {
            Err(x) => Err(x),
            Ok((None, gt)) => Err(err(ErrorKind::MalformedTag, 0, gt)),
            Ok((Some(div), gt)) => match inner_parse(toks, scan, 1, div) {
                Ok(m) => Ok((m, gt + 1)),
                Err(x) => if x.kind == ErrorKind::UnexpectedEndOfInput {
                    Err(err(ErrorKind::UnexpectedEndOfInput, div, div))
                } else {
                    Err(x)
                },
            },
        }
    }
}

fn type_path_end(toks: &Vec<Tok>, i: usize, end: usize) -> (r: Result<usize, ParseError>)
    requires
        end <= toks.len(),
    ensures
        match (r, type_end(toks@, i as int, end as int)) {
            (Ok(a), Ok(b)) => a == b,
            (Err(e), Err(f)) => e == f,
            _ => false,
        },
        r is Ok ==> i < r->Ok_0 <= end,
{
    let s = if path_sep(toks, i, end) { i + 2 } else { i };
    if s >= end {
        return Err(ParseError { kind: ErrorKind::UnexpectedEndOfInput, lo: end, hi: end });
    }
    if !ident_at_exec(toks, s, end) {
        return Err(ParseError { kind: ErrorKind::ExpectedIdent, lo: s, hi: s });
    }
    let mut j = s + 1;
    while path_sep(toks, j, end)
        invariant
            s < j <= end,
            end <= toks.len(),
            type_end(toks@, i as int, end as int) == segments_end(toks@, j as int, end as int),
        decreases end - j,
    {
        if j + 2 >= end {
            return Err(ParseError { kind: ErrorKind::UnexpectedEndOfInput, lo: end, hi: end });
        }
        if !ident_at_exec(toks, j + 2, end) {
            return Err(ParseError { kind: ErrorKind::ExpectedIdent, lo: j + 2, hi: j + 2 });
        }
        j = j + 3;
    }
    Ok(j)
}

fn path_sep(toks: &Vec<Tok>, j: usize, end: usize) -> (r: bool)
    requires
        end <= toks.len(),
    ensures
        r == path_sep_at(toks@, j as int, end as int),
{
    if j < end && j + 1 < end {
        let first = match &toks[j] {
            Tok::Punct { ch, joint } => *ch == ':' && *joint,
            _ => false,
        };
        first && punct_at_exec(toks, j + 1, end, ':')
    } else {
        false
    }
}

impl HtmlComponentInner {
    /// Parses all of the tokens `start..end` as a component's type and properties.
    pub fn parse(toks: &Vec<Tok>, scan: &Vec<ValueScan>, start: usize, end: usize) -> (r: Result<HtmlComponentInner, ParseError>)
        requires
            start <= end <= toks.len(),
        ensures
            match (r, inner_parse(toks@, scan@, start as int, end as int)) {
                (Ok(c), Ok(m)) => c@ == m,
                (Err(e), Err(f)) => e == f,
                _ => false,
            },
    {
        let t = match type_path_end(toks, start, end) {
            Ok(t) => t,
            Err(e) => {
                return Err(e);
            },
        };
        let ty = TypePath { lo: start, hi: t };
        // backwards compat
        let p = if punct_at_exec(toks, t, end, ':') { t + 1 } else { t };
        let (props, e) = match Props::peek(toks, p, end) {
            None => (None, p),
            Some(PropType::List) => match ListProps::parse(toks, scan, p, end) {
                Ok((l, e)) => (Some(Props::List(l)), e),
                Err(x) => {
                    return Err(x);
                },
            },
            Some(PropType::With) => match WithProps::parse(toks, p, end) {
                Ok((w, e)) => (Some(Props::With(w)), e),
                Err(x) => {
                    return Err(x);
                },
            },
        };
        if e < end {
            return Err(ParseError { kind: ErrorKind::UnexpectedToken, lo: e, hi: e });
        }
        Ok(HtmlComponentInner { ty, props })
    }
}

/// Scans a tag from `start` (just after its `<`) to its closing `>`: returns the
/// index of the `/` of a self-closed tag, if it is one, and the index of the `>`.
pub fn tag_suffix(toks: &Vec<Tok>, start: usize) -> (r: Result<(Option<usize>, usize), ParseError>)
    requires
        start >= 1,
    ensures
        match (r, suffix_from(toks@, start as int, 1)) {
            (Ok((d, g)), Ok((d2, g2))) => g == g2 && match (d, d2) {
                (Some(a), Some(b)) => a == b,
                (None, None) => true,
                _ => false,
            },
            (Err(e), Err(f)) => e == f,
            _ => false,
        },
        r is Ok ==> start <= r->Ok_0.1 < toks.len()
            && (r->Ok_0.0 is Some ==> start <= r->Ok_0.0->Some_0 && r->Ok_0.0->Some_0 + 1 == r->Ok_0.1),
{
    let n = toks.len();
    let mut j = start;
    let mut depth: usize = 1;
    while j < n
        invariant
            1 <= start <= j,
            n == toks.len(),
            1 <= depth <= j - start + 1,
            suffix_from(toks@, start as int, 1) == suffix_from(toks@, j as int, depth as nat),
        decreases n - j,
    {
        if punct_at_exec(toks, j, n, '>') {
            if depth <= 1 {
                return Ok((None, j));
            }
            depth = depth - 1;
        } else if punct_at_exec(toks, j, n, '<') {
            depth = depth + 1;
        } else if punct_at_exec(toks, j, n, '/') && depth == 1 && j + 1 < n && punct_at_exec(toks, j + 1, n, '>') {
            return Ok((Some(j), j + 1));
        }
        j = j + 1;
    }
    Err(ParseError { kind: ErrorKind::UnexpectedEndOfInput, lo: n, hi: n })
}

impl HtmlComponent {
    /// Lookahead: does a component tag start here, a `<` then a type path that
    /// is not all lower case? Nothing is consumed.
    pub fn peek(toks: &Vec<Tok>) -> (r: bool)
        ensures
            r == (toks.len() > 0 && is_punct(toks@[0], '<') && names_component(path_from(toks@, 1, true).0)),
    {
        if punct_at_exec(toks, 0, toks.len(), '<') {
            peek_type(toks, 1)
        } else {
            false
        }
    }

    /// Parses a self-closed component tag `< .. />` at the start of `toks`. `scan`
    /// holds, for each index, what the value parser says of a value that starts
    /// there and runs at most to the tag's `/`. Returns the component and the number
    /// of tokens the tag takes.
    pub fn parse(toks: &Vec<Tok>, scan: &Vec<ValueScan>) -> (r: Result<(HtmlComponent, usize), ParseError>)
        ensures
            match (r, component_parse(toks@, scan@)) {
                (Ok((HtmlComponent(c), n)), Ok((m, k))) => c@ == m && n == k,
                (Err(e), Err(f)) => e == f,
                _ => false,
            },
    {
        if toks.len() == 0 {
            return Err(ParseError { kind: ErrorKind::UnexpectedEndOfInput, lo: 0, hi: 0 });
        }
        if !punct_at_exec(toks, 0, toks.len(), '<') {
            return Err(ParseError { kind: ErrorKind::UnexpectedToken, lo: 0, hi: 0 });
        }
        let (div, gt) = match tag_suffix(toks, 1) {
            Ok(s) => s,
            Err(e) => {
                return Err(e);
            },
        };
        let div = match div {
            None => {
                return Err(ParseError { kind: ErrorKind::MalformedTag, lo: 0, hi: gt });
            },
            Some(d) => d,
        };
        match HtmlComponentInner::parse(toks, scan, 1, div) {
            Ok(comp) => Ok((HtmlComponent(comp), gt + 1)),
            Err(e) => {
                if e.kind == ErrorKind::UnexpectedEndOfInput {
                    Err(ParseError { kind: ErrorKind::UnexpectedEndOfInput, lo: div, hi: div })
                } else {
                    Err(e)
                }
            },
        }
    }
}

} // verus!
