use vstd::prelude::*;

use crate::error::{err, ErrorKind, ParseError, ValueScan};
use crate::order::{lemma_sort_by_label, sort_by_label, sort_props, sorted_by_label};
use crate::token::{ident_at, ident_at_exec, ident_is, ident_text, is_ident, punct_at, punct_at_exec, Tok};

verus! {

/// One `label=value` declaration, by token indices: the label is `label_lo..label_hi`
/// (a name, then `-name` extensions), the value is `value_lo..value_hi`.
#[derive(Clone, Copy, Debug, PartialEq, Eq, Structural)]
pub struct HtmlProp {
    pub label_lo: usize,
    pub label_hi: usize,
    pub value_lo: usize,
    pub value_hi: usize,
}

/// A property list, in ascending order of label text.
pub struct ListProps(pub Vec<HtmlProp>);

/// `with name`: the properties are the value named by the identifier at this index.
#[derive(Clone, Copy, Debug, PartialEq, Eq, Structural)]
pub struct WithProps(pub usize);

/// Which form of properties follows the type.
#[derive(Clone, Copy, Debug, PartialEq, Eq, Structural)]
pub enum PropType {
    List,
    With,
}

pub enum Props {
    List(ListProps),
    With(WithProps),
}

/// What a component's property part means.
pub enum PropSpec {
    List(Seq<HtmlProp>),
    With(usize),
    Absent,
}

pub open spec fn props_view(p: Option<Props>) -> PropSpec {
    match p {
        Some(Props::List(ListProps(v))) => PropSpec::List(v@),
        Some(Props::With(WithProps(i))) => PropSpec::With(i),
        None => PropSpec::Absent,
    }
}

/// The end of a label's `-name` extensions that start at `j`.
pub open spec fn ext_end(toks: Seq<Tok>, j: int, end: int) -> int
    decreases end - j,
{
    if j < end && punct_at(toks, j, end, '-') && ident_at(toks, j + 1, end) {
        ext_end(toks, j + 2, end)
    } else {
        j
    }
}

/// A property declaration starts at `i`: a label followed by `=`.
pub open spec fn prop_starts(toks: Seq<Tok>, i: int, end: int) -> bool {
    ident_at(toks, i, end) && punct_at(toks, ext_end(toks, i + 1, end), end, '=')
}

/// Where the value that starts at `at` ends, by what the value parser said of it.
pub open spec fn value_end(scan: Seq<ValueScan>, at: int, end: int) -> Result<int, ParseError> {
    if at >= end {
        Err(err(ErrorKind::UnexpectedEndOfInput, end, end))
    } else if at < 0 || at >= scan.len() {
        Err(err(ErrorKind::BadValue, at, at))
    } else {
        match scan[at] {
            ValueScan::Ends(n) => if at < n <= end {
                Ok(n as int)
            } else {
                Err(err(ErrorKind::BadValue, at, at))
            },
            ValueScan::EndOfInput => Err(err(ErrorKind::UnexpectedEndOfInput, end, end)),
            ValueScan::Invalid => Err(err(ErrorKind::BadValue, at, at)),
        }
    }
}

/// The declaration at `i` (where one starts), with the index after it
/// and after the optional `,` that follows it.
pub open spec fn prop_at(toks: Seq<Tok>, scan: Seq<ValueScan>, i: int, end: int) -> Result<(HtmlProp, int), ParseError> {
    let j = ext_end(toks, i + 1, end);
    match value_end(scan, j + 1, end) {
        Ok(n) => Ok((
            HtmlProp { label_lo: i as usize, label_hi: j as usize, value_lo: (j + 1) as usize, value_hi: n as usize },
            if punct_at(toks, n, end, ',') { n + 1 } else { n },
        )),
        Err(e) => Err(e),
    }
}

/// The declarations from `i` on, as long as one starts, with the index they stop at.
pub open spec fn props_from(toks: Seq<Tok>, scan: Seq<ValueScan>, i: int, end: int) -> Result<(Seq<HtmlProp>, int), ParseError>
    decreases end - i,
{
    if i < end && prop_starts(toks, i, end) {
        match prop_at(toks, scan, i, end) {
            Ok((p, next)) => if i < next {
                match props_from(toks, scan, next, end) {
                    Ok((rest, e)) => Ok((seq![p] + rest, e)),
                    Err(x) => Err(x),
                }
            } else {
                Ok((seq![p], next))
            },
            Err(x) => Err(x),
        }
    } else {
        Ok((Seq::empty(), i))
    }
}

/// The label is the reserved word `type`.
pub open spec fn is_reserved(toks: Seq<Tok>, p: HtmlProp) -> bool {
    p.label_hi == p.label_lo + 1 && 0 <= p.label_lo < toks.len() && is_ident(toks[p.label_lo as int]) && ident_text(toks[p.label_lo as int]) == "type"@
}

/// The label has `-name` extensions.
pub open spec fn is_qualified(p: HtmlProp) -> bool {
    p.label_hi > p.label_lo + 1
}

/// The first label, from the left, that is reserved or qualified, as a diagnostic.
pub open spec fn label_error(toks: Seq<Tok>, s: Seq<HtmlProp>) -> Option<ParseError>
    decreases s.len(),
{
    if s.len() == 0 {
        None
    } else if is_reserved(toks, s[0]) {
        Some(err(ErrorKind::ReservedLabel, s[0].label_lo as int, s[0].label_hi - 1))
    } else if is_qualified(s[0]) {
        Some(err(ErrorKind::QualifiedLabel, s[0].label_lo as int, s[0].label_hi - 1))
    } else {
        label_error(toks, s.drop_first())
    }
}

/// A property list from `i`: the declarations, checked, then sorted by label.
pub open spec fn list_props(toks: Seq<Tok>, scan: Seq<ValueScan>, i: int, end: int) -> Result<(Seq<HtmlProp>, int), ParseError> {
    match props_from(toks, scan, i, end) {
        Ok((s, e)) => match label_error(toks, s) {
            Some(x) => Err(x),
            None => Ok((sort_by_label(toks, s), e)),
        },
        Err(x) => Err(x),
    }
}

fn label_end(toks: &Vec<Tok>, start: usize, end: usize) -> (r: usize)
    requires
        start <= end <= toks.len(),
    ensures
        r == ext_end(toks@, start as int, end as int),
        start <= r <= end,
{
    let mut j = start;
    while j < end && punct_at_exec(toks, j, end, '-') && j + 1 < end && ident_at_exec(toks, j + 1, end)
        invariant
            start <= j <= end,
            end <= toks.len(),
            ext_end(toks@, start as int, end as int) == ext_end(toks@, j as int, end as int),
        decreases end - j,
    {
        j = j + 2;
    }
    j
}

impl HtmlProp {
    /// Does a property declaration start at `i`?
    pub fn peek(toks: &Vec<Tok>, i: usize, end: usize) -> (r: bool)
        requires
            end <= toks.len(),
        ensures
            r == prop_starts(toks@, i as int, end as int),
    {
        if i < end && ident_at_exec(toks, i, end) {
            let j = label_end(toks, i + 1, end);
            punct_at_exec(toks, j, end, '=')
        } else {
            false
        }
    }

    /// Parses the declaration that starts at `i`.
    pub fn parse(toks: &Vec<Tok>, scan: &Vec<ValueScan>, i: usize, end: usize) -> (r: Result<(HtmlProp, usize), ParseError>)
        requires
            end <= toks.len(),
            prop_starts(toks@, i as int, end as int),
        ensures
            match (r, prop_at(toks@, scan@, i as int, end as int)) {
                (Ok((p, n)), Ok((q, m))) => p == q && n == m,
                (Err(e), Err(f)) => e == f,
                _ => false,
            },
            r is Ok ==> i < r->Ok_0.1 <= end,
    {
        let j = label_end(toks, i + 1, end);
        let at = j + 1;
        let n: usize;
        if at >= end {
            return Err(ParseError { kind: ErrorKind::UnexpectedEndOfInput, lo: end, hi: end });
        } else if at >= scan.len() {
            return Err(ParseError { kind: ErrorKind::BadValue, lo: at, hi: at });
        } else {
            match scan[at] {
                ValueScan::Ends(m) => {
                    if at < m && m <= end {
                        n = m;
                    } else {
                        return Err(ParseError { kind: ErrorKind::BadValue, lo: at, hi: at });
                    }
                },
                ValueScan::EndOfInput => {
                    return Err(ParseError { kind: ErrorKind::UnexpectedEndOfInput, lo: end, hi: end });
                },
                ValueScan::Invalid => {
                    return Err(ParseError { kind: ErrorKind::BadValue, lo: at, hi: at });
                },
            }
        }
        let p = HtmlProp { label_lo: i, label_hi: j, value_lo: at, value_hi: n };
        // backwards compat
        let next = if punct_at_exec(toks, n, end, ',') { n + 1 } else { n };
        Ok((p, next))
    }
}

/// Is `p` reserved (`type`), as `is_reserved` says?
fn reserved(toks: &Vec<Tok>, p: &HtmlProp) -> (r: bool)
    ensures
        r == is_reserved(toks@, *p),
{
    proof {
        reveal_strlit("type");
    }
    p.label_lo < usize::MAX && p.label_hi == p.label_lo + 1 && p.label_lo < toks.len() && ident_is(toks, p.label_lo, "type")
}

impl ListProps {
    /// Parses declarations from `i` on while one starts; rejects a reserved or a
    /// qualified label (the first such, from the left); sorts the rest by label.
    pub fn parse(toks: &Vec<Tok>, scan: &Vec<ValueScan>, i: usize, end: usize) -> (r: Result<(ListProps, usize), ParseError>)
        requires
            i <= end <= toks.len(),
        ensures
            match (r, list_props(toks@, scan@, i as int, end as int)) {
                (Ok((ListProps(v), n)), Ok((s, m))) => v@ == s && n == m,
                (Err(e), Err(f)) => e == f,
                _ => false,
            },
            r is Ok ==> i <= r->Ok_0.1 <= end,
    {
        let mut props: Vec<HtmlProp> = Vec::new();
        let mut k = i;
        let mut going = true;
        while going
            invariant
                i <= k <= end,
                end <= toks.len(),
                going ==> props_from(toks@, scan@, i as int, end as int) == match props_from(toks@, scan@, k as int, end as int) {
                    Ok((rest, e)) => Ok((props@ + rest, e)),
                    Err(x) => Err::<(Seq<HtmlProp>, int), ParseError>(x),
                },
                !going ==> props_from(toks@, scan@, i as int, end as int) == Ok::<(Seq<HtmlProp>, int), ParseError>((props@, k as int)),
            decreases end - k, if going { 1int } else { 0int },
        {
            if HtmlProp::peek(toks, k, end) {
                match HtmlProp::parse(toks, scan, k, end) {
                    Ok((p, next)) => {
                        assert(props@.push(p) =~= props@ + seq![p]);
                        assert forall|rest: Seq<HtmlProp>| props@ + (seq![p] + rest) =~= props@.push(p) + rest by {}
                        props.push(p);
                        k = next;
                    },
                    Err(e) => {
                        return Err(e);
                    },
                }
            } else {
                assert(props@ + Seq::<HtmlProp>::empty() =~= props@);
                going = false;
            }
        }
        let mut idx: usize = 0;
        assert(props@.subrange(0, props.len() as int) =~= props@);
        while idx < props.len()
            invariant
                0 <= idx <= props.len(),
                props_from(toks@, scan@, i as int, end as int) == Ok::<(Seq<HtmlProp>, int), ParseError>((props@, k as int)),
                i <= k <= end,
                label_error(toks@, props@) == label_error(toks@, props@.subrange(idx as int, props.len() as int)),
            decreases props.len() - idx,
        {
            let p = props[idx];
            assert(props@.subrange(idx as int, props.len() as int).drop_first()
                =~= props@.subrange(idx + 1, props.len() as int));
            assert(props@.subrange(idx as int, props.len() as int)[0] == p);
            if reserved(toks, &p) {
                assert(label_error(toks@, props@) == Some(err(ErrorKind::ReservedLabel, p.label_lo as int, p.label_hi - 1)));
                return Err(ParseError { kind: ErrorKind::ReservedLabel, lo: p.label_lo, hi: p.label_hi - 1 });
            }
            if p.label_hi > p.label_lo && p.label_hi - p.label_lo > 1 {
                assert(label_error(toks@, props@) == Some(err(ErrorKind::QualifiedLabel, p.label_lo as int, p.label_hi - 1)));
                return Err(ParseError { kind: ErrorKind::QualifiedLabel, lo: p.label_lo, hi: p.label_hi - 1 });
            }
            idx = idx + 1;
        }
        let sorted = sort_props(toks, &props);
        Ok((ListProps(sorted), k))
    }
}

/// `with name` from `i`, then an optional `,`: the index of `name`, and the index after.
pub open spec fn with_props(toks: Seq<Tok>, i: int, end: int) -> Result<(usize, int), ParseError> {
    if i >= end {
        Err(err(ErrorKind::UnexpectedEndOfInput, end, end))
    } else if !ident_at(toks, i, end) {
        Err(err(ErrorKind::ExpectedIdent, i, i))
    } else if ident_text(toks[i]) != "with"@ {
        Err(err(ErrorKind::DelegateKeywordMismatch, i, i))
    } else if i + 1 >= end {
        Err(err(ErrorKind::UnexpectedEndOfInput, end, end))
    } else if !ident_at(toks, i + 1, end) {
        Err(err(ErrorKind::ExpectedIdent, i + 1, i + 1))
    } else {
        Ok(((i + 1) as usize, if punct_at(toks, i + 2, end, ',') { i + 3 } else { i + 2 }))
    }
}

/// The form of properties that starts at `i`: none unless an identifier stands there.
pub open spec fn prop_kind(toks: Seq<Tok>, i: int, end: int) -> Option<PropType> {
    if ident_at(toks, i, end) {
        if ident_text(toks[i]) == "with"@ {
            Some(PropType::With)
        } else {
            Some(PropType::List)
        }
    } else {
        None
    }
}

impl WithProps {
    /// Parses `with name` at `i`, and a `,` after it if there is one.
    pub fn parse(toks: &Vec<Tok>, i: usize, end: usize) -> (r: Result<(WithProps, usize), ParseError>)
        requires
            end <= toks.len(),
        ensures
            match (r, with_props(toks@, i as int, end as int)) {
                (Ok((WithProps(w), n)), Ok((v, m))) => w == v && n == m,
                (Err(e), Err(f)) => e == f,
                _ => false,
            },
            r is Ok ==> i < r->Ok_0.1 <= end,
    {
        proof {
            reveal_strlit("with");
        }
        if i >= end {
            return Err(ParseError { kind: ErrorKind::UnexpectedEndOfInput, lo: end, hi: end });
        }
        if !ident_at_exec(toks, i, end) {
            return Err(ParseError { kind: ErrorKind::ExpectedIdent, lo: i, hi: i });
        }
        if !ident_is(toks, i, "with") {
            return Err(ParseError { kind: ErrorKind::DelegateKeywordMismatch, lo: i, hi: i });
        }
        if i + 1 >= end {
            return Err(ParseError { kind: ErrorKind::UnexpectedEndOfInput, lo: end, hi: end });
        }
        if !ident_at_exec(toks, i + 1, end) {
            return Err(ParseError { kind: ErrorKind::ExpectedIdent, lo: i + 1, hi: i + 1 });
        }
        // backwards compat
        let next = if punct_at_exec(toks, i + 2, end, ',') { i + 3 } else { i + 2 };
        Ok((WithProps(i + 1), next))
    }
}

impl Props {
    /// Which form of properties starts at `i`, if any.
    pub fn peek(toks: &Vec<Tok>, i: usize, end: usize) -> (r: Option<PropType>)
        requires
            end <= toks.len(),
        ensures
            r == prop_kind(toks@, i as int, end as int),
    {
        proof {
            reveal_strlit("with");
        }
        if ident_at_exec(toks, i, end) {
            if ident_is(toks, i, "with") {
                Some(PropType::With)
            } else {
                Some(PropType::List)
            }
        } else {
            None
        }
    }
}

/// An accepted property list is in ascending label order, holds exactly the
/// declarations as written (each label with its own value), and sorting it again
/// changes nothing.
pub proof fn lemma_list_props_canonical(toks: Seq<Tok>, scan: Seq<ValueScan>, i: int, end: int)
    requires
        list_props(toks, scan, i, end) is Ok,
    ensures
        ({
            let out = list_props(toks, scan, i, end)->Ok_0.0;
            let written = props_from(toks, scan, i, end)->Ok_0.0;
            &&& sorted_by_label(toks, out)
            &&& out.to_multiset() == written.to_multiset()
            &&& sort_by_label(toks, out) == out
        }),
{
    lemma_sort_by_label(toks, props_from(toks, scan, i, end)->Ok_0.0);
}

proof fn lemma_label_error_reserved(toks: Seq<Tok>, s: Seq<HtmlProp>, k: int)
    requires
        0 <= k < s.len(),
        is_reserved(toks, s[k]),
        forall|j: int| 0 <= j < k ==> !is_qualified(#[trigger] s[j]),
    ensures
        label_error(toks, s) is Some,
        label_error(toks, s)->Some_0.kind == ErrorKind::ReservedLabel,
    decreases s.len(),
{
    if !is_reserved(toks, s[0]) {
        let t = s.drop_first();
        assert(k > 0);
        assert(!is_qualified(s[0]));
        assert forall|j: int| 0 <= j < k - 1 implies !is_qualified(#[trigger] t[j]) by {
            assert(t[j] == s[j + 1]);
        }
        lemma_label_error_reserved(toks, t, k - 1);
    }
}

/// A declared label `type` makes the property list fail with `ReservedLabel`,
/// wherever it stands, unless a dashed label before it fails first.
pub proof fn lemma_reserved_label_rejected(toks: Seq<Tok>, scan: Seq<ValueScan>, i: int, end: int, k: int)
    requires
        props_from(toks, scan, i, end) is Ok,
        0 <= k < props_from(toks, scan, i, end)->Ok_0.0.len(),
        is_reserved(toks, props_from(toks, scan, i, end)->Ok_0.0[k]),
        forall|j: int| 0 <= j < k ==> !is_qualified(#[trigger] props_from(toks, scan, i, end)->Ok_0.0[j]),
    ensures
        list_props(toks, scan, i, end) is Err,
        list_props(toks, scan, i, end)->Err_0.kind == ErrorKind::ReservedLabel,
{
    lemma_label_error_reserved(toks, props_from(toks, scan, i, end)->Ok_0.0, k);
}

} // verus!
