//! Tests of the declaration parser: positional renaming, receiver
//! rejection, per-declaration error isolation, and duplicate names.

use dylink_core::decl::{parse_block, parse_param, split_items, ItemOutcome};
use dylink_core::diag::DiagKind;
use dylink_core::sig::positional;
use dylink_core::tok::{Delim, Tok};

fn w(s: &str) -> Tok {
    Tok::Word(s.to_string())
}

fn p(c: char) -> Tok {
    Tok::Punct(c)
}

fn abi() -> String {
    "system".to_string()
}

#[test]
fn single_prototype_parses() {
    // fn foo();
    let toks = vec![
        w("fn"),
        w("foo"),
        Tok::Open(Delim::Paren),
        Tok::Close(Delim::Paren),
        p(';'),
    ];
    let outs = parse_block(&abi(), &toks);
    assert_eq!(outs.len(), 1);
    match &outs[0] {
        ItemOutcome::Accepted(sig) => {
            assert_eq!(sig.name, "foo");
            assert_eq!(sig.abi, "system");
            assert_eq!(sig.params.len(), 0);
            assert!(sig.ret.is_none());
            assert!(sig.vis.is_none());
            assert_eq!(sig.attrs.len(), 0);
        }
        other => panic!("expected accepted item, got {:?}", other),
    }
}

#[test]
fn wildcard_parameters_are_renamed_positionally() {
    // fn g(_: i32, x: f32);  ->  parameters p0 and x, in that order.
    let toks = vec![
        w("fn"),
        w("g"),
        Tok::Open(Delim::Paren),
        w("_"),
        p(':'),
        w("i32"),
        p(','),
        w("x"),
        p(':'),
        w("f32"),
        Tok::Close(Delim::Paren),
        p(';'),
    ];
    let outs = parse_block(&abi(), &toks);
    assert_eq!(outs.len(), 1);
    match &outs[0] {
        ItemOutcome::Accepted(sig) => {
            assert_eq!(sig.params.len(), 2);
            assert_eq!(sig.params[0].name, "p0");
            assert_eq!(sig.params[1].name, "x");
            // The types are the token ranges of `i32` and `f32`.
            assert_eq!((sig.params[0].ty.lo, sig.params[0].ty.hi), (5, 6));
            assert_eq!((sig.params[1].ty.lo, sig.params[1].ty.hi), (9, 10));
        }
        other => panic!("expected accepted item, got {:?}", other),
    }
}

#[test]
fn positional_names_carry_the_decimal_index() {
    assert_eq!(positional(0), "p0");
    assert_eq!(positional(7), "p7");
    assert_eq!(positional(10), "p10");
    assert_eq!(positional(123), "p123");
}

#[test]
fn receiver_parameter_is_rejected_with_its_message() {
    // fn m(&self);  ->  one rejected item, nothing generated for it.
    let toks = vec![
        w("fn"),
        w("m"),
        Tok::Open(Delim::Paren),
        p('&'),
        w("self"),
        Tok::Close(Delim::Paren),
        p(';'),
    ];
    let outs = parse_block(&abi(), &toks);
    assert_eq!(outs.len(), 1);
    match &outs[0] {
        ItemOutcome::Rejected(d) => {
            assert_eq!(d.kind, DiagKind::ReceiverParam);
            assert_eq!(d.message(), "receiver arguments are unsupported");
        }
        other => panic!("expected rejection, got {:?}", other),
    }
}

#[test]
fn receiver_forms_are_all_detected() {
    // Chunks laid side by side in one token list, probed individually.
    let toks = vec![
        w("self"),                      // 0..1
        p('&'), w("self"),              // 1..3
        p('&'), w("mut"), w("self"),    // 3..6
        w("mut"), w("self"),            // 6..8
        w("self"), p(':'), w("T"),      // 8..11
        p('&'), p('\''), w("a"), w("self"), // 11..15
    ];
    for (lo, hi) in [(0, 1), (1, 3), (3, 6), (6, 8), (8, 11), (11, 15)] {
        match parse_param(&toks, lo, hi) {
            Err(d) => assert_eq!(d.kind, DiagKind::ReceiverParam),
            other => panic!("expected receiver rejection at {}..{}, got {:?}", lo, hi, other),
        }
    }
}

#[test]
fn one_bad_declaration_does_not_stop_the_block() {
    // fn a(); fn m(&self); fn b();
    let toks = vec![
        w("fn"), w("a"), Tok::Open(Delim::Paren), Tok::Close(Delim::Paren), p(';'),
        w("fn"), w("m"), Tok::Open(Delim::Paren), p('&'), w("self"),
        Tok::Close(Delim::Paren), p(';'),
        w("fn"), w("b"), Tok::Open(Delim::Paren), Tok::Close(Delim::Paren), p(';'),
    ];
    let outs = parse_block(&abi(), &toks);
    assert_eq!(outs.len(), 3);
    assert!(matches!(&outs[0], ItemOutcome::Accepted(s) if s.name == "a"));
    assert!(matches!(&outs[1], ItemOutcome::Rejected(d) if d.kind == DiagKind::ReceiverParam));
    assert!(matches!(&outs[2], ItemOutcome::Accepted(s) if s.name == "b"));
}

#[test]
fn duplicate_function_names_are_rejected() {
    // fn a(); fn a();
    let toks = vec![
        w("fn"), w("a"), Tok::Open(Delim::Paren), Tok::Close(Delim::Paren), p(';'),
        w("fn"), w("a"), Tok::Open(Delim::Paren), Tok::Close(Delim::Paren), p(';'),
    ];
    let outs = parse_block(&abi(), &toks);
    assert_eq!(outs.len(), 2);
    assert!(matches!(&outs[0], ItemOutcome::Accepted(_)));
    match &outs[1] {
        ItemOutcome::Rejected(d) => {
            assert_eq!(d.kind, DiagKind::DuplicateName);
            // The second declaration's own range, without its terminator.
            assert_eq!((d.span.lo, d.span.hi), (5, 9));
        }
        other => panic!("expected rejection, got {:?}", other),
    }
}

#[test]
fn missing_terminator_is_reported() {
    // fn a()   — no `;`.
    let toks = vec![w("fn"), w("a"), Tok::Open(Delim::Paren), Tok::Close(Delim::Paren)];
    let outs = parse_block(&abi(), &toks);
    assert_eq!(outs.len(), 1);
    assert!(matches!(&outs[0], ItemOutcome::Rejected(d) if d.kind == DiagKind::MissingTerminator));
}

#[test]
fn non_function_item_is_rejected() {
    // type T;  — this library rejects non-function items in a block.
    let toks = vec![w("type"), w("T"), p(';')];
    let outs = parse_block(&abi(), &toks);
    assert_eq!(outs.len(), 1);
    assert!(matches!(&outs[0], ItemOutcome::Rejected(d) if d.kind == DiagKind::ExpectedPrototype));
}

#[test]
fn return_type_attributes_and_visibility_are_kept() {
    // #[cold] pub fn f(x: u8) -> u32;
    let toks = vec![
        p('#'),
        Tok::Open(Delim::Bracket),
        w("cold"),
        Tok::Close(Delim::Bracket),
        w("pub"),
        w("fn"),
        w("f"),
        Tok::Open(Delim::Paren),
        w("x"),
        p(':'),
        w("u8"),
        Tok::Close(Delim::Paren),
        p('-'),
        p('>'),
        w("u32"),
        p(';'),
    ];
    let outs = parse_block(&abi(), &toks);
    assert_eq!(outs.len(), 1);
    match &outs[0] {
        ItemOutcome::Accepted(sig) => {
            assert_eq!(sig.attrs.len(), 1);
            assert_eq!((sig.attrs[0].lo, sig.attrs[0].hi), (0, 4));
            let vis = sig.vis.expect("visibility span");
            assert_eq!((vis.lo, vis.hi), (4, 5));
            assert_eq!(sig.name, "f");
            let ret = sig.ret.expect("return span");
            assert_eq!((ret.lo, ret.hi), (14, 15));
        }
        other => panic!("expected accepted item, got {:?}", other),
    }
}

#[test]
fn semicolons_inside_groups_do_not_split() {
    // fn f(x: [u8; 4]);  — the `;` inside the bracket group is no terminator.
    let toks = vec![
        w("fn"),
        w("f"),
        Tok::Open(Delim::Paren),
        w("x"),
        p(':'),
        Tok::Open(Delim::Bracket),
        w("u8"),
        p(';'),
        Tok::Lit("4".to_string()),
        Tok::Close(Delim::Bracket),
        Tok::Close(Delim::Paren),
        p(';'),
    ];
    let (chunks, rest) = split_items(&toks);
    assert_eq!(chunks.len(), 1);
    assert_eq!((chunks[0].lo, chunks[0].hi), (0, 11));
    assert_eq!(rest, 12);
    let outs = parse_block(&abi(), &toks);
    assert_eq!(outs.len(), 1);
    assert!(matches!(&outs[0], ItemOutcome::Accepted(s) if s.params.len() == 1));
}

#[test]
fn parameter_with_empty_type_is_rejected() {
    // fn f(x:);  — the colon must be followed by a non-empty type.
    let toks = vec![
        w("fn"),
        w("f"),
        Tok::Open(Delim::Paren),
        w("x"),
        p(':'),
        Tok::Close(Delim::Paren),
        p(';'),
    ];
    let outs = parse_block(&abi(), &toks);
    assert!(matches!(&outs[0], ItemOutcome::Rejected(d) if d.kind == DiagKind::ExpectedParameter));
}

#[test]
fn restricted_visibility_spans_the_whole_qualifier() {
    // pub(crate) fn f();
    let toks = vec![
        w("pub"),
        Tok::Open(Delim::Paren),
        w("crate"),
        Tok::Close(Delim::Paren),
        w("fn"),
        w("f"),
        Tok::Open(Delim::Paren),
        Tok::Close(Delim::Paren),
        p(';'),
    ];
    let outs = parse_block(&abi(), &toks);
    match &outs[0] {
        ItemOutcome::Accepted(sig) => {
            let vis = sig.vis.expect("visibility span");
            assert_eq!((vis.lo, vis.hi), (0, 4));
        }
        other => panic!("expected accepted item, got {:?}", other),
    }
}

#[test]
fn trailing_comma_in_parameters_is_accepted() {
    // fn f(x: u8,);
    let toks = vec![
        w("fn"),
        w("f"),
        Tok::Open(Delim::Paren),
        w("x"),
        p(':'),
        w("u8"),
        p(','),
        Tok::Close(Delim::Paren),
        p(';'),
    ];
    let outs = parse_block(&abi(), &toks);
    assert!(matches!(&outs[0], ItemOutcome::Accepted(s) if s.params.len() == 1));
}

#[test]
fn mut_parameter_keeps_its_name() {
    // fn f(mut x: u8);
    let toks = vec![
        w("fn"),
        w("f"),
        Tok::Open(Delim::Paren),
        w("mut"),
        w("x"),
        p(':'),
        w("u8"),
        Tok::Close(Delim::Paren),
        p(';'),
    ];
    let outs = parse_block(&abi(), &toks);
    match &outs[0] {
        ItemOutcome::Accepted(sig) => {
            assert_eq!(sig.params.len(), 1);
            assert_eq!(sig.params[0].name, "x");
        }
        other => panic!("expected accepted item, got {:?}", other),
    }
}
