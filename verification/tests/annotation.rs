//! Tests of the annotation parser: each accepted form maps to its exact
//! strategy, everything else is an error, never a default.

use dylink_core::annot::parse_annotation;
use dylink_core::diag::DiagKind;
use dylink_core::link::{LinkType, WellKnownApi};
use dylink_core::tok::{Delim, Tok};

fn w(s: &str) -> Tok {
    Tok::Word(s.to_string())
}

fn st(s: &str) -> Tok {
    Tok::Str(s.to_string())
}

#[test]
fn vulkan_keyword_is_primary_well_known() {
    let toks = vec![w("vulkan")];
    let r = parse_annotation(&toks);
    assert!(matches!(
        r,
        Ok(LinkType::WellKnown(WellKnownApi::PrimaryGraphicsApi))
    ));
}

#[test]
fn opengl_keyword_is_legacy_well_known() {
    let toks = vec![w("opengl")];
    let r = parse_annotation(&toks);
    assert!(matches!(
        r,
        Ok(LinkType::WellKnown(WellKnownApi::LegacyGraphicsApi))
    ));
}

#[test]
fn named_form_keeps_the_literal() {
    let toks = vec![w("name"), Tok::Punct('='), st("foo")];
    match parse_annotation(&toks) {
        Ok(LinkType::Named(n)) => assert_eq!(n, "foo"),
        other => panic!("expected Named, got {:?}", other),
    }
}

#[test]
fn any_form_keeps_candidates_in_order() {
    let toks = vec![
        w("any"),
        Tok::Open(Delim::Paren),
        w("name"),
        Tok::Punct('='),
        st("foo"),
        Tok::Punct(','),
        w("name"),
        Tok::Punct('='),
        st("bar"),
        Tok::Close(Delim::Paren),
    ];
    match parse_annotation(&toks) {
        Ok(LinkType::NamedAny(ns)) => assert_eq!(ns, vec!["foo".to_string(), "bar".to_string()]),
        other => panic!("expected NamedAny, got {:?}", other),
    }
}

#[test]
fn any_form_accepts_a_trailing_comma() {
    let toks = vec![
        w("any"),
        Tok::Open(Delim::Paren),
        w("name"),
        Tok::Punct('='),
        st("foo"),
        Tok::Punct(','),
        Tok::Close(Delim::Paren),
    ];
    match parse_annotation(&toks) {
        Ok(LinkType::NamedAny(ns)) => assert_eq!(ns, vec!["foo".to_string()]),
        other => panic!("expected NamedAny, got {:?}", other),
    }
}

#[test]
fn single_candidate_any_resolves_like_named() {
    // One-argument `any` is accepted and equivalent to `Named` for
    // resolution-order purposes: both render the same candidate list.
    let any_toks = vec![
        w("any"),
        Tok::Open(Delim::Paren),
        w("name"),
        Tok::Punct('='),
        st("x"),
        Tok::Close(Delim::Paren),
    ];
    let named_toks = vec![w("name"), Tok::Punct('='), st("x")];
    let any_strategy = parse_annotation(&any_toks).unwrap();
    let named_strategy = parse_annotation(&named_toks).unwrap();
    assert!(matches!(&any_strategy, LinkType::NamedAny(ns) if ns == &vec!["x".to_string()]));
    assert_eq!(
        any_strategy.to_runtime_expr(),
        named_strategy.to_runtime_expr()
    );
}

#[test]
fn empty_any_is_rejected_distinctly() {
    let toks = vec![w("any"), Tok::Open(Delim::Paren), Tok::Close(Delim::Paren)];
    match parse_annotation(&toks) {
        Err(d) => {
            assert_eq!(d.kind, DiagKind::EmptyAny);
            assert_eq!(d.message(), "no arguments detected");
        }
        other => panic!("expected error, got {:?}", other),
    }
}

#[test]
fn unknown_keyword_is_an_error_not_a_default() {
    let toks = vec![w("metal")];
    match parse_annotation(&toks) {
        Err(d) => assert_eq!(d.kind, DiagKind::ExpectedStrategy),
        other => panic!("expected error, got {:?}", other),
    }
}

#[test]
fn named_form_demands_a_string_literal() {
    let toks = vec![w("name"), Tok::Punct('='), Tok::Lit("42".to_string())];
    match parse_annotation(&toks) {
        Err(d) => assert_eq!(d.kind, DiagKind::ExpectedStringLiteral),
        other => panic!("expected error, got {:?}", other),
    }
}

#[test]
fn any_argument_with_wrong_identifier() {
    let toks = vec![
        w("any"),
        Tok::Open(Delim::Paren),
        w("lib"),
        Tok::Punct('='),
        st("foo"),
        Tok::Close(Delim::Paren),
    ];
    match parse_annotation(&toks) {
        Err(d) => {
            assert_eq!(d.kind, DiagKind::ExpectedNameIdent);
            assert_eq!(d.message(), "expected identifier `name`");
        }
        other => panic!("expected error, got {:?}", other),
    }
}

#[test]
fn any_argument_that_is_no_pair() {
    let toks = vec![
        w("any"),
        Tok::Open(Delim::Paren),
        st("foo"),
        Tok::Close(Delim::Paren),
    ];
    match parse_annotation(&toks) {
        Err(d) => assert_eq!(d.kind, DiagKind::ExpectedNamePair),
        other => panic!("expected error, got {:?}", other),
    }
}

#[test]
fn wrong_assignment_identifier_gets_the_sharper_message() {
    // lib = "x"  — an assignment whose left-hand side is not `name`.
    let toks = vec![w("lib"), Tok::Punct('='), st("x")];
    match parse_annotation(&toks) {
        Err(d) => {
            assert_eq!(d.kind, DiagKind::ExpectedNameIdent);
            assert_eq!(d.message(), "expected identifier `name`");
            assert_eq!((d.span.lo, d.span.hi), (0, 1));
        }
        other => panic!("expected error, got {:?}", other),
    }
}

#[test]
fn error_spans_point_at_the_offending_tokens() {
    // In `any(name = "a", name = 5)` the bad right-hand side is at index 8.
    let toks = vec![
        w("any"),
        Tok::Open(Delim::Paren),
        w("name"),
        Tok::Punct('='),
        st("a"),
        Tok::Punct(','),
        w("name"),
        Tok::Punct('='),
        Tok::Lit("5".to_string()),
        Tok::Close(Delim::Paren),
    ];
    match parse_annotation(&toks) {
        Err(d) => {
            assert_eq!(d.kind, DiagKind::ExpectedStringLiteral);
            assert_eq!(d.span.lo, 8);
        }
        other => panic!("expected error, got {:?}", other),
    }
}

#[test]
fn nested_group_inside_any_is_rejected() {
    // any((name = "x")) — the argument is a group, not a pair.
    let toks = vec![
        w("any"),
        Tok::Open(Delim::Paren),
        Tok::Open(Delim::Paren),
        w("name"),
        Tok::Punct('='),
        st("x"),
        Tok::Close(Delim::Paren),
        Tok::Close(Delim::Paren),
    ];
    assert!(parse_annotation(&toks).is_err());
}

#[test]
fn well_known_keyword_with_trailing_tokens_is_rejected() {
    let toks = vec![w("vulkan"), w("vulkan")];
    assert!(parse_annotation(&toks).is_err());
}

#[test]
fn empty_annotation_is_rejected() {
    let toks: Vec<Tok> = vec![];
    assert!(parse_annotation(&toks).is_err());
}
