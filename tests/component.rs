use yew_macro::component::{HtmlComponent, HtmlComponentInner, TypePath};
use yew_macro::emit::InitProps;
use yew_macro::error::{ErrorKind, ParseError, ValueScan};
use yew_macro::order::str_lt;
use yew_macro::props::{HtmlProp, ListProps, PropType, Props, WithProps};
use yew_macro::token::{str_eq, Tok};

fn p(c: char) -> Tok {
    Tok::Punct { ch: c, joint: false }
}

fn pj(c: char) -> Tok {
    Tok::Punct { ch: c, joint: true }
}

fn id(s: &str) -> Tok {
    Tok::Ident(s.to_string())
}

fn lit() -> Tok {
    Tok::Literal
}

/// `/>` as the lexer gives it.
fn close(v: &mut Vec<Tok>) {
    v.push(pj('/'));
    v.push(p('>'));
}

fn no_values(n: usize) -> Vec<ValueScan> {
    vec![ValueScan::Invalid; n]
}

fn text(toks: &[Tok], i: usize) -> String {
    match &toks[i] {
        Tok::Ident(s) => s.clone(),
        _ => String::new(),
    }
}

fn list_of(c: &HtmlComponent) -> Vec<HtmlProp> {
    match &c.0.props {
        Some(Props::List(ListProps(v))) => v.clone(),
        _ => panic!("not a property list"),
    }
}

// <Foo a=1 b=2 /> : values at 4 and 7.
fn tag_ab() -> (Vec<Tok>, Vec<ValueScan>) {
    let mut t = vec![p('<'), id("Foo"), id("a"), p('='), lit(), id("b"), p('='), lit()];
    close(&mut t);
    let mut s = no_values(t.len());
    s[4] = ValueScan::Ends(5);
    s[7] = ValueScan::Ends(8);
    (t, s)
}

// <Foo b=2 a=1 />
fn tag_ba() -> (Vec<Tok>, Vec<ValueScan>) {
    let mut t = vec![p('<'), id("Foo"), id("b"), p('='), lit(), id("a"), p('='), lit()];
    close(&mut t);
    let mut s = no_values(t.len());
    s[4] = ValueScan::Ends(5);
    s[7] = ValueScan::Ends(8);
    (t, s)
}

#[test]
fn classify_upper_case_type() {
    assert!(HtmlComponent::peek(&vec![p('<'), id("Foo")]));
    assert!(HtmlComponent::peek(&vec![p('<'), id("FOO"), p('/'), p('>')]));
}

#[test]
fn classify_lower_case_element() {
    let mut t = vec![p('<'), id("foo")];
    close(&mut t);
    assert!(!HtmlComponent::peek(&t));
}

#[test]
fn classify_qualified_paths() {
    // a::B
    assert!(HtmlComponent::peek(&vec![p('<'), id("a"), pj(':'), p(':'), id("B")]));
    // ::Foo
    assert!(HtmlComponent::peek(&vec![p('<'), pj(':'), p(':'), id("Foo")]));
    // a::b::c is all lower case
    assert!(!HtmlComponent::peek(&vec![p('<'), id("a"), pj(':'), p(':'), id("b"), pj(':'), p(':'), id("c")]));
    // Foo::bar holds an upper-case letter
    assert!(HtmlComponent::peek(&vec![p('<'), id("Foo"), pj(':'), p(':'), id("bar")]));
}

#[test]
fn classify_only_first_separator_is_optional() {
    // `foo Bar`: the path stops after `foo`, which is all lower case.
    assert!(!HtmlComponent::peek(&vec![p('<'), id("foo"), id("Bar")]));
}

#[test]
fn classify_empty_path() {
    assert!(!HtmlComponent::peek(&vec![p('<')]));
    assert!(!HtmlComponent::peek(&vec![p('<'), lit()]));
    assert!(!HtmlComponent::peek(&vec![]));
    assert!(!HtmlComponent::peek(&vec![id("Foo")]));
}

#[test]
fn bare_component_has_no_props() {
    let mut t = vec![p('<'), id("Foo")];
    close(&mut t);
    let (c, n) = HtmlComponent::parse(&t, &no_values(t.len())).unwrap();
    assert_eq!(n, 4);
    assert_eq!(c.0.ty, TypePath { lo: 1, hi: 2 });
    assert!(c.0.props.is_none());
    let e = c.to_tokens();
    assert!(e.checked_labels.is_empty());
    assert!(matches!(e.init, InitProps::Default));
}

#[test]
fn property_list_is_sorted() {
    let (t, s) = tag_ab();
    let (c, n) = HtmlComponent::parse(&t, &s).unwrap();
    assert_eq!(n, t.len());
    let v = list_of(&c);
    let labels: Vec<String> = v.iter().map(|q| text(&t, q.label_lo)).collect();
    assert_eq!(labels, vec!["a".to_string(), "b".to_string()]);
}

#[test]
fn property_list_order_independent() {
    let (t1, s1) = tag_ab();
    let (t2, s2) = tag_ba();
    let v1 = list_of(&HtmlComponent::parse(&t1, &s1).unwrap().0);
    let v2 = list_of(&HtmlComponent::parse(&t2, &s2).unwrap().0);
    let l1: Vec<String> = v1.iter().map(|q| text(&t1, q.label_lo)).collect();
    let l2: Vec<String> = v2.iter().map(|q| text(&t2, q.label_lo)).collect();
    assert_eq!(l1, l2);
    // each label keeps its own value: in `b=2 a=1`, `a` is at 5 and its value at 7
    assert_eq!(v2[0], HtmlProp { label_lo: 5, label_hi: 6, value_lo: 7, value_hi: 8 });
    assert_eq!(v2[1], HtmlProp { label_lo: 2, label_hi: 3, value_lo: 4, value_hi: 5 });
}

#[test]
fn equal_labels_keep_their_order() {
    // <Foo a=1 a=2 />
    let mut t = vec![p('<'), id("Foo"), id("a"), p('='), lit(), id("a"), p('='), lit()];
    close(&mut t);
    let mut s = no_values(t.len());
    s[4] = ValueScan::Ends(5);
    s[7] = ValueScan::Ends(8);
    let v = list_of(&HtmlComponent::parse(&t, &s).unwrap().0);
    assert_eq!(v.len(), 2);
    assert_eq!(v[0].value_lo, 4);
    assert_eq!(v[1].value_lo, 7);
}

#[test]
fn trailing_commas_between_props() {
    // <Foo z=1, y=2 />
    let mut t = vec![p('<'), id("Foo"), id("z"), p('='), lit(), p(','), id("y"), p('='), lit()];
    close(&mut t);
    let mut s = no_values(t.len());
    s[4] = ValueScan::Ends(5);
    s[8] = ValueScan::Ends(9);
    let v = list_of(&HtmlComponent::parse(&t, &s).unwrap().0);
    assert_eq!(v[0].label_lo, 6);
    assert_eq!(v[1].label_lo, 2);
}

#[test]
fn reserved_label_rejected_first() {
    // <Foo type=1 a=2 />
    let mut t = vec![p('<'), id("Foo"), id("type"), p('='), lit(), id("a"), p('='), lit()];
    close(&mut t);
    let mut s = no_values(t.len());
    s[4] = ValueScan::Ends(5);
    s[7] = ValueScan::Ends(8);
    let e = HtmlComponent::parse(&t, &s).err().unwrap();
    assert_eq!(e, ParseError { kind: ErrorKind::ReservedLabel, lo: 2, hi: 2 });
}

#[test]
fn reserved_label_rejected_last() {
    // <Foo a=1 type=2 />
    let mut t = vec![p('<'), id("Foo"), id("a"), p('='), lit(), id("type"), p('='), lit()];
    close(&mut t);
    let mut s = no_values(t.len());
    s[4] = ValueScan::Ends(5);
    s[7] = ValueScan::Ends(8);
    let e = HtmlComponent::parse(&t, &s).err().unwrap();
    assert_eq!(e, ParseError { kind: ErrorKind::ReservedLabel, lo: 5, hi: 5 });
}

#[test]
fn qualified_label_rejected() {
    // <Foo a-b=1 />
    let mut t = vec![p('<'), id("Foo"), id("a"), p('-'), id("b"), p('='), lit()];
    close(&mut t);
    let mut s = no_values(t.len());
    s[6] = ValueScan::Ends(7);
    let e = HtmlComponent::parse(&t, &s).err().unwrap();
    assert_eq!(e, ParseError { kind: ErrorKind::QualifiedLabel, lo: 2, hi: 4 });
}

#[test]
fn delegate_props() {
    // <Foo with bag />
    let mut t = vec![p('<'), id("Foo"), id("with"), id("bag")];
    close(&mut t);
    let (c, _) = HtmlComponent::parse(&t, &no_values(t.len())).unwrap();
    assert!(matches!(c.0.props, Some(Props::With(WithProps(3)))));
    let e = c.to_tokens();
    assert!(e.checked_labels.is_empty());
    assert!(matches!(e.init, InitProps::Delegate(3)));
}

#[test]
fn delegate_inner_with_and_without_comma() {
    // Foo with bag   and   Foo with bag,
    let t1 = vec![id("Foo"), id("with"), id("bag")];
    let t2 = vec![id("Foo"), id("with"), id("bag"), p(',')];
    let c1 = HtmlComponentInner::parse(&t1, &no_values(3), 0, 3).ok().unwrap();
    let c2 = HtmlComponentInner::parse(&t2, &no_values(4), 0, 4).ok().unwrap();
    assert!(matches!(c1.props, Some(Props::With(WithProps(2)))));
    assert!(matches!(c2.props, Some(Props::With(WithProps(2)))));
    assert_eq!(c1.ty, c2.ty);
}

#[test]
fn delegate_keyword_mismatch() {
    let t = vec![id("bag"), id("x")];
    let e = WithProps::parse(&t, 0, 2).err().unwrap();
    assert_eq!(e, ParseError { kind: ErrorKind::DelegateKeywordMismatch, lo: 0, hi: 0 });
}

#[test]
fn delegate_needs_a_name() {
    let t = vec![id("with"), lit()];
    let e = WithProps::parse(&t, 0, 2).err().unwrap();
    assert_eq!(e, ParseError { kind: ErrorKind::ExpectedIdent, lo: 1, hi: 1 });
    let e = WithProps::parse(&t, 0, 1).err().unwrap();
    assert_eq!(e.kind, ErrorKind::UnexpectedEndOfInput);
}

#[test]
fn props_kind_lookahead() {
    let t = vec![id("with"), id("a"), lit()];
    assert_eq!(Props::peek(&t, 0, 3), Some(PropType::With));
    assert_eq!(Props::peek(&t, 1, 3), Some(PropType::List));
    assert_eq!(Props::peek(&t, 2, 3), None);
}

#[test]
fn not_self_closed_is_malformed() {
    // <Foo>
    let t = vec![p('<'), id("Foo"), p('>')];
    let e = HtmlComponent::parse(&t, &no_values(3)).err().unwrap();
    assert_eq!(e, ParseError { kind: ErrorKind::MalformedTag, lo: 0, hi: 2 });
}

#[test]
fn missing_value_reanchored_to_slash() {
    // <Foo a= />
    let mut t = vec![p('<'), id("Foo"), id("a"), p('=')];
    close(&mut t);
    let e = HtmlComponent::parse(&t, &no_values(t.len())).err().unwrap();
    assert_eq!(e, ParseError { kind: ErrorKind::UnexpectedEndOfInput, lo: 4, hi: 4 });
}

#[test]
fn unfinished_value_reanchored_to_slash() {
    // <Foo a=- /> where the value parser runs out of tokens
    let mut t = vec![p('<'), id("Foo"), id("a"), p('='), p('-')];
    close(&mut t);
    let mut s = no_values(t.len());
    s[4] = ValueScan::EndOfInput;
    let e = HtmlComponent::parse(&t, &s).err().unwrap();
    assert_eq!(e, ParseError { kind: ErrorKind::UnexpectedEndOfInput, lo: 5, hi: 5 });
}

#[test]
fn rejected_value_is_not_reanchored() {
    // <Foo a== />
    let mut t = vec![p('<'), id("Foo"), id("a"), p('='), p('=')];
    close(&mut t);
    let e = HtmlComponent::parse(&t, &no_values(t.len())).err().unwrap();
    assert_eq!(e, ParseError { kind: ErrorKind::BadValue, lo: 4, hi: 4 });
}

#[test]
fn unclosed_tag_runs_out() {
    let t = vec![p('<'), id("Foo"), id("a")];
    let e = HtmlComponent::parse(&t, &no_values(3)).err().unwrap();
    assert_eq!(e, ParseError { kind: ErrorKind::UnexpectedEndOfInput, lo: 3, hi: 3 });
}

#[test]
fn leftover_token_rejected() {
    // <Foo 1 />
    let mut t = vec![p('<'), id("Foo"), lit()];
    close(&mut t);
    let e = HtmlComponent::parse(&t, &no_values(t.len())).err().unwrap();
    assert_eq!(e, ParseError { kind: ErrorKind::UnexpectedToken, lo: 2, hi: 2 });
}

#[test]
fn not_a_tag() {
    let e = HtmlComponent::parse(&vec![id("Foo")], &no_values(1)).err().unwrap();
    assert_eq!(e, ParseError { kind: ErrorKind::UnexpectedToken, lo: 0, hi: 0 });
    let e = HtmlComponent::parse(&vec![], &no_values(0)).err().unwrap();
    assert_eq!(e.kind, ErrorKind::UnexpectedEndOfInput);
}

#[test]
fn qualified_type_and_legacy_colon() {
    // <a::Foo: x=1 />
    let mut t = vec![p('<'), id("a"), pj(':'), p(':'), id("Foo"), p(':'), id("x"), p('='), lit()];
    close(&mut t);
    let mut s = no_values(t.len());
    s[8] = ValueScan::Ends(9);
    let (c, _) = HtmlComponent::parse(&t, &s).unwrap();
    assert_eq!(c.0.ty, TypePath { lo: 1, hi: 5 });
    assert_eq!(list_of(&c).len(), 1);
}

#[test]
fn type_path_needs_segment_after_separator() {
    // <a:: />
    let mut t = vec![p('<'), id("a"), pj(':'), p(':')];
    close(&mut t);
    let e = HtmlComponent::parse(&t, &no_values(t.len())).err().unwrap();
    assert_eq!(e, ParseError { kind: ErrorKind::UnexpectedEndOfInput, lo: 4, hi: 4 });
}

#[test]
fn nested_angles_inside_tag() {
    // <Foo a=<b> /> : the `<b>` pair does not end the tag
    let mut t = vec![p('<'), id("Foo"), id("a"), p('='), p('<'), id("b"), p('>')];
    close(&mut t);
    let mut s = no_values(t.len());
    s[4] = ValueScan::Ends(7);
    let (c, n) = HtmlComponent::parse(&t, &s).unwrap();
    assert_eq!(n, 9);
    assert_eq!(list_of(&c)[0].value_hi, 7);
}

#[test]
fn emission_for_list() {
    let (t, s) = tag_ba();
    let (c, _) = HtmlComponent::parse(&t, &s).unwrap();
    let e = c.to_tokens();
    assert_eq!(e.ty, TypePath { lo: 1, hi: 2 });
    assert_eq!(e.checked_labels, vec![5, 2]);
    match e.init {
        InitProps::Builder(v) => assert_eq!(v, list_of(&c)),
        _ => panic!("expected a builder"),
    }
}

#[test]
fn prop_lookahead_needs_equals() {
    let t = vec![id("a"), p('-'), id("b"), p('='), lit(), id("c"), lit()];
    assert!(HtmlProp::peek(&t, 0, 7));
    assert!(!HtmlProp::peek(&t, 5, 7));
    assert!(!HtmlProp::peek(&t, 0, 3));
}

#[test]
fn text_order() {
    assert!(str_lt("a", "b"));
    assert!(str_lt("a", "ab"));
    assert!(!str_lt("ab", "a"));
    assert!(!str_lt("a", "a"));
    assert!(str_lt("Z", "a"));
    assert!(str_eq("type", "type"));
    assert!(!str_eq("type", "typ"));
}
