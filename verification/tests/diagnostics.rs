//! Tests of the diagnostic values: message texts and spans.

use dylink_core::diag::{DiagKind, Diagnostic};

#[test]
fn messages_name_the_expectation() {
    let cases = [
        (DiagKind::ExpectedStrategy, "expected `vulkan`, `opengl`, `any`, or `name`"),
        (DiagKind::ExpectedNameIdent, "expected identifier `name`"),
        (DiagKind::ExpectedStringLiteral, "expected string literal"),
        (DiagKind::ExpectedNamePair, "expected `name = <string>`"),
        (DiagKind::EmptyAny, "no arguments detected"),
        (DiagKind::ExpectedPrototype, "expected a function prototype"),
        (DiagKind::MissingTerminator, "expected `;` after the declaration"),
        (DiagKind::ExpectedParameter, "expected `<pattern>: <type>` parameter"),
        (DiagKind::ReceiverParam, "receiver arguments are unsupported"),
        (DiagKind::DuplicateName, "duplicate function name"),
        (DiagKind::LifecycleArity, "lifecycle function lacks its tracked parameter"),
    ];
    for (kind, text) in cases {
        assert_eq!(Diagnostic::new(kind, 0, 0).message(), text);
    }
}

#[test]
fn spans_carry_the_offending_range() {
    let d = Diagnostic::new(DiagKind::EmptyAny, 3, 9);
    assert_eq!(d.span.lo, 3);
    assert_eq!(d.span.hi, 9);
}
