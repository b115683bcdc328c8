use vstd::prelude::*;

use crate::component::{HtmlComponent, TypePath};
use crate::props::{HtmlProp, ListProps, PropSpec, Props, WithProps};

verus! {

/// How the properties value of a component node is built.
pub enum InitProps {
    /// Through the schema's builder, one setter per declaration, in this order.
    Builder(Vec<HtmlProp>),
    /// The value named by the identifier at this index, as it is.
    Delegate(usize),
    /// The schema's builder with no setter.
    Default,
}

/// What the output for one component holds: a check, never run, that `ty` is a
/// component and that each label in `checked_labels` (by token index) is a field
/// of its properties; and the construction of the node.
pub struct Emission {
    pub ty: TypePath,
    pub checked_labels: Vec<usize>,
    pub init: InitProps,
}

fn copy_props(v: &Vec<HtmlProp>) -> (r: Vec<HtmlProp>)
    ensures
        r@ == v@,
{
    let mut r: Vec<HtmlProp> = Vec::new();
    let mut i: usize = 0;
    while i < v.len()
        invariant
            i <= v.len(),
            r@ == v@.subrange(0, i as int),
        decreases v.len() - i,
    {
        assert(v@.subrange(0, i + 1) =~= v@.subrange(0, i as int).push(v[i as int]));
        r.push(v[i]);
        i = i + 1;
    }
    assert(v@.subrange(0, v.len() as int) =~= v@);
    r
}

impl HtmlComponent {
    /// The output plan for this component: field checks for a property list only;
    /// a builder with the list's setters, the delegate as it is, or the bare builder.
    pub fn to_tokens(&self) -> (r: Emission)
        ensures
            r.ty == self.0.ty,
            match self.0@.props {
                PropSpec::List(s) => r.checked_labels@ == s.map_values(|p: HtmlProp| p.label_lo)
                    && r.init is Builder && r.init->Builder_0@ == s,
                PropSpec::With(w) => r.checked_labels@.len() == 0 && r.init == InitProps::Delegate(w),
                PropSpec::Absent => r.checked_labels@.len() == 0 && r.init is Default,
            },
    {
        match &self.0.props {
            Some(Props::List(ListProps(v))) => {
                let mut labels: Vec<usize> = Vec::new();
                let mut i: usize = 0;
                while i < v.len()
                    invariant
                        i <= v.len(),
                        labels@ == v@.subrange(0, i as int).map_values(|p: HtmlProp| p.label_lo),
                    decreases v.len() - i,
                {
                    assert(v@.subrange(0, i + 1).map_values(|p: HtmlProp| p.label_lo)
                        =~= v@.subrange(0, i as int).map_values(|p: HtmlProp| p.label_lo).push(v[i as int].label_lo));
                    labels.push(v[i].label_lo);
                    i = i + 1;
                }
                assert(v@.subrange(0, v.len() as int) =~= v@);
                Emission { ty: self.0.ty, checked_labels: labels, init: InitProps::Builder(copy_props(v)) }
            },
            Some(Props::With(WithProps(w))) => {
                Emission { ty: self.0.ty, checked_labels: Vec::new(), init: InitProps::Delegate(*w) }
            },
            None => Emission { ty: self.0.ty, checked_labels: Vec::new(), init: InitProps::Default },
        }
    }
}

} // verus!
