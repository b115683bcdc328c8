use vstd::prelude::*;

use crate::props::HtmlProp;
use crate::token::{ident_text, Tok};

verus! {

/// Lexicographic order on texts, by code point (which is the byte order of UTF-8).
pub open spec fn text_lt(a: Seq<char>, b: Seq<char>) -> bool
    decreases a.len(),
{
    if a.len() == 0 {
        b.len() > 0
    } else if b.len() == 0 {
        false
    } else if a[0] != b[0] {
        (a[0] as int) < (b[0] as int)
    } else {
        text_lt(a.drop_first(), b.drop_first())
    }
}

pub proof fn lemma_text_lt_transitive(a: Seq<char>, b: Seq<char>, c: Seq<char>)
    requires
        text_lt(a, b),
        text_lt(b, c),
    ensures
        text_lt(a, c),
    decreases a.len(),
{
    if a.len() > 0 && b.len() > 0 && c.len() > 0 && a[0] == b[0] && b[0] == c[0] {
        lemma_text_lt_transitive(a.drop_first(), b.drop_first(), c.drop_first());
    }
}

/// `a` sorts strictly before `b`.
pub fn str_lt(a: &str, b: &str) -> (r: bool)
    ensures
        r == text_lt(a@, b@),
{
    let na = a.unicode_len();
    let nb = b.unicode_len();
    let mut i: usize = 0;
    assert(a@.subrange(0, na as int) =~= a@);
    assert(b@.subrange(0, nb as int) =~= b@);
    while i < na && i < nb
        invariant
            na == a@.len(),
            nb == b@.len(),
            i <= na,
            i <= nb,
            text_lt(a@, b@) == text_lt(a@.subrange(i as int, na as int), b@.subrange(i as int, nb as int)),
        decreases na - i,
    {
        let ca = a.get_char(i);
        let cb = b.get_char(i);
        if ca != cb {
            return (ca as u32) < (cb as u32);
        }
        assert(a@.subrange(i as int, na as int).drop_first() =~= a@.subrange(i + 1, na as int));
        assert(b@.subrange(i as int, nb as int).drop_first() =~= b@.subrange(i + 1, nb as int));
        i = i + 1;
    }
    i == na && i < nb
}

/// The text that a property sorts by: its label's name.
pub open spec fn label_key(toks: Seq<Tok>, p: HtmlProp) -> Seq<char> {
    if p.label_lo < toks.len() {
        ident_text(toks[p.label_lo as int])
    } else {
        Seq::empty()
    }
}

pub open spec fn prop_lt(toks: Seq<Tok>, a: HtmlProp, b: HtmlProp) -> bool {
    text_lt(label_key(toks, a), label_key(toks, b))
}

/// Ascending by label text: no property sorts before one to its left.
pub open spec fn sorted_by_label(toks: Seq<Tok>, s: Seq<HtmlProp>) -> bool {
    forall|i: int, j: int| 0 <= i < j < s.len() ==> !prop_lt(toks, s[j], s[i])
}

/// `x` put in front of the first element of `s` that sorts strictly after it.
pub open spec fn insert_by_label(toks: Seq<Tok>, s: Seq<HtmlProp>, x: HtmlProp) -> Seq<HtmlProp>
    decreases s.len(),
{
    if s.len() == 0 {
        seq![x]
    } else if prop_lt(toks, x, s[0]) {
        seq![x] + s
    } else {
        seq![s[0]] + insert_by_label(toks, s.drop_first(), x)
    }
}

/// Insertion sort by label text, left to right: a stable sort.
pub open spec fn sort_by_label(toks: Seq<Tok>, s: Seq<HtmlProp>) -> Seq<HtmlProp>
    decreases s.len(),
{
    if s.len() == 0 {
        s
    } else {
        insert_by_label(toks, sort_by_label(toks, s.drop_last()), s.last())
    }
}

fn insert_prop(toks: &Vec<Tok>, s: Vec<HtmlProp>, x: HtmlProp) -> (r: Vec<HtmlProp>)
    ensures
        r@ == insert_by_label(toks@, s@, x),
{
    let mut r: Vec<HtmlProp> = Vec::new();
    let mut k: usize = 0;
    let mut placed = false;
    assert(s@.subrange(0, s.len() as int) =~= s@);
    assert(r@ + insert_by_label(toks@, s@, x) =~= insert_by_label(toks@, s@, x));
    while k < s.len() && !placed
        invariant
            k <= s.len(),
            !placed ==> insert_by_label(toks@, s@, x) == r@ + insert_by_label(toks@, s@.subrange(k as int, s.len() as int), x),
            placed ==> k < s.len() && prop_lt(toks@, x, s@[k as int])
                && insert_by_label(toks@, s@, x) == r@ + seq![x] + s@.subrange(k as int, s.len() as int),
        decreases s.len() - k, if placed { 0int } else { 1int },
    {
        let kx = key_str(toks, &x);
        let ks = key_str(toks, &s[k]);
        if str_lt(kx, ks) {
            placed = true;
        } else {
            assert(s@.subrange(k as int, s.len() as int).drop_first() =~= s@.subrange(k + 1, s.len() as int));
            assert(r@ + insert_by_label(toks@, s@.subrange(k as int, s.len() as int), x)
                =~= r@.push(s[k as int]) + insert_by_label(toks@, s@.subrange(k + 1, s.len() as int), x));
            r.push(s[k]);
            k = k + 1;
        }
    }
    let ghost front = r@;
    r.push(x);
    let ghost start = k;
    while k < s.len()
        invariant
            start <= k <= s.len(),
            r@ == front + seq![x] + s@.subrange(start as int, k as int),
        decreases s.len() - k,
    {
        assert(s@.subrange(start as int, k + 1) =~= s@.subrange(start as int, k as int).push(s[k as int]));
        r.push(s[k]);
        k = k + 1;
    }
    assert(s@.subrange(k as int, s.len() as int) =~= Seq::<HtmlProp>::empty());
    assert(r@ =~= insert_by_label(toks@, s@, x));
    r
}

/// The name of a property's label.
fn key_str<'a>(toks: &'a Vec<Tok>, p: &HtmlProp) -> (r: &'a str)
    ensures
        r@ == label_key(toks@, *p),
{
    proof {
        reveal_strlit("");
    }
    if p.label_lo < toks.len() {
        match &toks[p.label_lo] {
            Tok::Ident(s) => s.as_str(),
            _ => "",
        }
    } else {
        ""
    }
}

/// The properties in ascending order of their label text, equal labels in their
/// order of declaration.
pub fn sort_props(toks: &Vec<Tok>, s: &Vec<HtmlProp>) -> (r: Vec<HtmlProp>)
    ensures
        r@ == sort_by_label(toks@, s@),
{
    let mut r: Vec<HtmlProp> = Vec::new();
    let mut i: usize = 0;
    while i < s.len()
        invariant
            i <= s.len(),
            r@ == sort_by_label(toks@, s@.subrange(0, i as int)),
        decreases s.len() - i,
    {
        assert(s@.subrange(0, i + 1).drop_last() =~= s@.subrange(0, i as int));
        r = insert_prop(toks, r, s[i]);
        i = i + 1;
    }
    assert(s@.subrange(0, s.len() as int) =~= s@);
    r
}

proof fn lemma_insert_keeps(toks: Seq<Tok>, s: Seq<HtmlProp>, x: HtmlProp)
    ensures
        insert_by_label(toks, s, x).to_multiset() == s.to_multiset().insert(x),
    decreases s.len(),
{
    broadcast use vstd::seq_lib::group_to_multiset_ensures;
    if s.len() == 0 {
        assert(seq![x] =~= Seq::<HtmlProp>::empty().push(x));
    } else if prop_lt(toks, x, s[0]) {
        assert(seq![x] + s =~= s.insert(0, x));
        s.to_multiset_ensures();
    } else {
        lemma_insert_keeps(toks, s.drop_first(), x);
        assert(seq![s[0]] + insert_by_label(toks, s.drop_first(), x)
            =~= insert_by_label(toks, s.drop_first(), x).insert(0, s[0]));
        assert(s =~= s.drop_first().insert(0, s[0]));
        insert_by_label(toks, s.drop_first(), x).to_multiset_ensures();
        s.drop_first().to_multiset_ensures();
    }
}

pub proof fn lemma_text_lt_irreflexive(a: Seq<char>)
    ensures
        !text_lt(a, a),
    decreases a.len(),
{
    if a.len() > 0 {
        lemma_text_lt_irreflexive(a.drop_first());
    }
}

/// No element of `s` sorts strictly before `y`.
pub open spec fn bounded_below(toks: Seq<Tok>, s: Seq<HtmlProp>, y: HtmlProp) -> bool {
    forall|k: int| 0 <= k < s.len() ==> !prop_lt(toks, s[k], y)
}

proof fn lemma_insert_bounded_below(toks: Seq<Tok>, s: Seq<HtmlProp>, x: HtmlProp, y: HtmlProp)
    requires
        bounded_below(toks, s, y),
        !prop_lt(toks, x, y),
    ensures
        bounded_below(toks, insert_by_label(toks, s, x), y),
    decreases s.len(),
{
    if s.len() > 0 && !prop_lt(toks, x, s[0]) {
        let t = s.drop_first();
        lemma_insert_bounded_below(toks, t, x, y);
        let r = insert_by_label(toks, t, x);
        assert forall|k: int| 0 <= k < r.len() + 1 implies !prop_lt(toks, (seq![s[0]] + r)[k], y) by {
            if k > 0 {
                assert((seq![s[0]] + r)[k] == r[k - 1]);
            }
        }
    }
}

proof fn lemma_insert_sorted(toks: Seq<Tok>, s: Seq<HtmlProp>, x: HtmlProp)
    requires
        sorted_by_label(toks, s),
    ensures
        sorted_by_label(toks, insert_by_label(toks, s, x)),
        insert_by_label(toks, s, x).len() == s.len() + 1,
    decreases s.len(),
{
    if s.len() == 0 {
    } else if prop_lt(toks, x, s[0]) {
        let r = seq![x] + s;
        assert forall|i: int, j: int| 0 <= i < j < r.len() implies !prop_lt(toks, r[j], r[i]) by {
            if i == 0 {
                assert(r[0] == x);
                assert(r[j] == s[j - 1]);
                if j - 1 > 0 {
                    assert(!prop_lt(toks, s[j - 1], s[0]));
                }
                if prop_lt(toks, s[j - 1], x) {
                    lemma_text_lt_transitive(label_key(toks, s[j - 1]), label_key(toks, x), label_key(toks, s[0]));
                    if j - 1 == 0 {
                        lemma_text_lt_irreflexive(label_key(toks, s[0]));
                    }
                }
            } else {
                assert(r[i] == s[i - 1] && r[j] == s[j - 1]);
                assert(!prop_lt(toks, s[j - 1], s[i - 1]));
            }
        }
    } else {
        let t = s.drop_first();
        assert(sorted_by_label(toks, t)) by {
            assert forall|i: int, j: int| 0 <= i < j < t.len() implies !prop_lt(toks, t[j], t[i]) by {
                assert(t[i] == s[i + 1] && t[j] == s[j + 1]);
            }
        }
        lemma_insert_sorted(toks, t, x);
        assert(bounded_below(toks, t, s[0])) by {
            assert forall|k: int| 0 <= k < t.len() implies !prop_lt(toks, t[k], s[0]) by {
                assert(t[k] == s[k + 1]);
            }
        }
        lemma_insert_bounded_below(toks, t, x, s[0]);
        let u = insert_by_label(toks, t, x);
        let r = seq![s[0]] + u;
        assert forall|i: int, j: int| 0 <= i < j < r.len() implies !prop_lt(toks, r[j], r[i]) by {
            assert(r[j] == u[j - 1]);
            if i > 0 {
                assert(r[i] == u[i - 1]);
            } else {
                assert(r[0] == s[0]);
                assert(!prop_lt(toks, u[j - 1], s[0]));
            }
        }
    }
}

proof fn lemma_insert_last(toks: Seq<Tok>, s: Seq<HtmlProp>, x: HtmlProp)
    requires
        forall|k: int| 0 <= k < s.len() ==> !prop_lt(toks, x, s[k]),
    ensures
        insert_by_label(toks, s, x) == s.push(x),
    decreases s.len(),
{
    if s.len() > 0 {
        let t = s.drop_first();
        assert forall|k: int| 0 <= k < t.len() implies !prop_lt(toks, x, t[k]) by {
            assert(t[k] == s[k + 1]);
        }
        lemma_insert_last(toks, t, x);
        assert(seq![s[0]] + t.push(x) =~= s.push(x));
    }
}

/// Sorting by label gives an ascending sequence that holds the same declarations
/// (each label still with its own value), and sorting that again changes nothing.
pub proof fn lemma_sort_by_label(toks: Seq<Tok>, s: Seq<HtmlProp>)
    ensures
        sorted_by_label(toks, sort_by_label(toks, s)),
        sort_by_label(toks, s).to_multiset() == s.to_multiset(),
        sort_by_label(toks, sort_by_label(toks, s)) == sort_by_label(toks, s),
    decreases s.len(),
{
    broadcast use vstd::seq_lib::group_to_multiset_ensures;
    if s.len() > 0 {
        let d = s.drop_last();
        lemma_sort_by_label(toks, d);
        lemma_insert_sorted(toks, sort_by_label(toks, d), s.last());
        lemma_insert_keeps(toks, sort_by_label(toks, d), s.last());
        assert(s =~= d.push(s.last()));
    }
    lemma_sorted_is_fixed(toks, sort_by_label(toks, s));
}

/// A sequence already in ascending label order is left as it is.
pub proof fn lemma_sorted_is_fixed(toks: Seq<Tok>, s: Seq<HtmlProp>)
    requires
        sorted_by_label(toks, s),
    ensures
        sort_by_label(toks, s) == s,
    decreases s.len(),
{
    if s.len() > 0 {
        let d = s.drop_last();
        assert(sorted_by_label(toks, d)) by {
            assert forall|i: int, j: int| 0 <= i < j < d.len() implies !prop_lt(toks, d[j], d[i]) by {
                assert(d[i] == s[i] && d[j] == s[j]);
            }
        }
        lemma_sorted_is_fixed(toks, d);
        assert forall|k: int| 0 <= k < d.len() implies !prop_lt(toks, s.last(), d[k]) by {
            assert(d[k] == s[k]);
        }
        lemma_insert_last(toks, d, s.last());
        assert(d.push(s.last()) =~= s);
    }
}

pub proof fn lemma_text_lt_total(a: Seq<char>, b: Seq<char>)
    ensures
        text_lt(a, b) || a == b || text_lt(b, a),
    decreases a.len(),
{
    if a.len() > 0 && b.len() > 0 && a[0] == b[0] {
        lemma_text_lt_total(a.drop_first(), b.drop_first());
        if a.drop_first() == b.drop_first() {
            assert(a =~= seq![a[0]] + a.drop_first());
            assert(b =~= seq![b[0]] + b.drop_first());
        }
    } else if a.len() == 0 && b.len() == 0 {
        assert(a =~= b);
    } else if a.len() > 0 && b.len() > 0 {
        assert((a[0] as int) != (b[0] as int));
    }
}

/// The declarations whose label is `k`.
pub open spec fn has_label(toks: Seq<Tok>, k: Seq<char>) -> spec_fn(HtmlProp) -> bool {
    |p: HtmlProp| label_key(toks, p) == k
}

proof fn lemma_insert_filter(toks: Seq<Tok>, t: Seq<HtmlProp>, x: HtmlProp, k: Seq<char>)
    requires
        sorted_by_label(toks, t),
    ensures
        insert_by_label(toks, t, x).filter(has_label(toks, k)) == if label_key(toks, x) == k {
            t.filter(has_label(toks, k)).push(x)
        } else {
            t.filter(has_label(toks, k))
        },
    decreases t.len(),
{
    let f = has_label(toks, k);
    broadcast use Seq::filter_distributes_over_add;
    reveal_with_fuel(Seq::filter, 2);
    if t.len() == 0 {
        assert(seq![x].drop_last() =~= Seq::<HtmlProp>::empty());
    } else if prop_lt(toks, x, t[0]) {
        assert(seq![x].drop_last() =~= Seq::<HtmlProp>::empty());
        if label_key(toks, x) == k {
            assert forall|j: int| 0 <= j < t.len() implies !f(t[j]) by {
                if j > 0 {
                    assert(!prop_lt(toks, t[j], t[0]));
                    lemma_text_lt_total(label_key(toks, t[j]), label_key(toks, t[0]));
                    if label_key(toks, t[j]) != label_key(toks, t[0]) {
                        lemma_text_lt_transitive(label_key(toks, x), label_key(toks, t[0]), label_key(toks, t[j]));
                    }
                }
                lemma_text_lt_irreflexive(label_key(toks, x));
            }
            assert(t.all(|y: HtmlProp| !f(y)));
            t.lemma_all_neg_filter_empty(f);
            assert(t.filter(f) =~= Seq::<HtmlProp>::empty());
            assert(seq![x].filter(f) =~= seq![x]);
            assert((seq![x] + t).filter(f) == seq![x].filter(f) + t.filter(f));
            assert(seq![x] + Seq::<HtmlProp>::empty() =~= Seq::<HtmlProp>::empty().push(x));
        } else {
            assert(seq![x].filter(f) =~= Seq::<HtmlProp>::empty());
            assert((seq![x] + t).filter(f) == seq![x].filter(f) + t.filter(f));
            assert(Seq::<HtmlProp>::empty() + t.filter(f) =~= t.filter(f));
        }
    } else {
        let u = t.drop_first();
        assert(sorted_by_label(toks, u)) by {
            assert forall|i: int, j: int| 0 <= i < j < u.len() implies !prop_lt(toks, u[j], u[i]) by {
                assert(u[i] == t[i + 1] && u[j] == t[j + 1]);
                assert(!prop_lt(toks, t[j + 1], t[i + 1]));
            }
        }
        lemma_insert_filter(toks, u, x, k);
        let h = seq![t[0]];
        assert(h.drop_last() =~= Seq::<HtmlProp>::empty());
        assert(t =~= h + u);
        assert((h + insert_by_label(toks, u, x)).filter(f) == h.filter(f) + insert_by_label(toks, u, x).filter(f));
        assert((h + u).filter(f) == h.filter(f) + u.filter(f));
        assert(h.filter(f) + u.filter(f).push(x) =~= (h.filter(f) + u.filter(f)).push(x));
    }
}

/// Sorting by label keeps, for each label, its declarations in the order written:
/// the sort is stable.
pub proof fn lemma_sort_by_label_stable(toks: Seq<Tok>, s: Seq<HtmlProp>, k: Seq<char>)
    ensures
        sort_by_label(toks, s).filter(has_label(toks, k)) == s.filter(has_label(toks, k)),
    decreases s.len(),
{
    reveal_with_fuel(Seq::filter, 1);
    if s.len() > 0 {
        let d = s.drop_last();
        lemma_sort_by_label_stable(toks, d, k);
        lemma_sort_by_label(toks, d);
        lemma_insert_filter(toks, sort_by_label(toks, d), s.last(), k);
    }
}

} // verus!
