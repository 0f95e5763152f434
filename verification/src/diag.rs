//! Structured, span-attributed error values.
//!
//! Every parser failure carries the token range it points at and a fixed
//! message kind; the front end maps the token range back onto source spans.
//! An annotation failure aborts the whole transformation, while a failure in
//! one declaration is isolated to that declaration.

use vstd::prelude::*;

verus! {

/// A half-open range of token indices into the offending input sequence.
#[derive(Clone, Copy, PartialEq, Eq, Structural, Debug)]
pub struct Span {
    pub lo: usize,
    pub hi: usize,
}

impl Span {
    pub fn new(lo: usize, hi: usize) -> (s: Span)
        ensures
            s.lo == lo && s.hi == hi,
    {
        Span { lo, hi }
    }
}

/// The fixed message vocabulary of the transformer.
#[derive(Clone, Copy, PartialEq, Eq, Structural, Debug)]
pub enum DiagKind {
    /// The annotation matches none of the three accepted forms.
    ExpectedStrategy,
    /// The left-hand side of a pair is not literally `name`.
    ExpectedNameIdent,
    /// The right-hand side of a pair is not a string literal.
    ExpectedStringLiteral,
    /// An argument of `any` is not a `name = <string>` pair.
    ExpectedNamePair,
    /// `any` was called with no arguments.
    EmptyAny,
    /// A declaration is not a function prototype.
    ExpectedPrototype,
    /// A declaration is missing its `;` terminator.
    MissingTerminator,
    /// A parameter is not `<identifier>: <type>` or `_: <type>`.
    ExpectedParameter,
    /// A parameter is implicitly bound to an enclosing type.
    ReceiverParam,
    /// Two prototypes in one block share a name.
    DuplicateName,
    /// A lifecycle function lacks the parameter its bookkeeping reads.
    LifecycleArity,
}

impl DiagKind {
    /// The message text of each kind.
    pub open spec fn message_spec(self) -> Seq<char> {
        match self {
            DiagKind::ExpectedStrategy => "expected `vulkan`, `opengl`, `any`, or `name`"@,
            DiagKind::ExpectedNameIdent => "expected identifier `name`"@,
            DiagKind::ExpectedStringLiteral => "expected string literal"@,
            DiagKind::ExpectedNamePair => "expected `name = <string>`"@,
            DiagKind::EmptyAny => "no arguments detected"@,
            DiagKind::ExpectedPrototype => "expected a function prototype"@,
            DiagKind::MissingTerminator => "expected `;` after the declaration"@,
            DiagKind::ExpectedParameter => "expected `<pattern>: <type>` parameter"@,
            DiagKind::ReceiverParam => "receiver arguments are unsupported"@,
            DiagKind::DuplicateName => "duplicate function name"@,
            DiagKind::LifecycleArity => "lifecycle function lacks its tracked parameter"@,
        }
    }
}

/// A parser failure: what went wrong, and at which tokens.
#[derive(Clone, Copy, PartialEq, Eq, Structural, Debug)]
pub struct Diagnostic {
    pub kind: DiagKind,
    pub span: Span,
}

impl Diagnostic {
    pub fn new(kind: DiagKind, lo: usize, hi: usize) -> (d: Diagnostic)
        ensures
            d.kind == kind && d.span.lo == lo && d.span.hi == hi,
    {
        Diagnostic { kind, span: Span { lo, hi } }
    }

    /// The human-readable message of this diagnostic.
    pub fn message(&self) -> (m: String)
        ensures
            m@ == self.kind.message_spec(),
    {
        match self.kind {
            DiagKind::ExpectedStrategy => "expected `vulkan`, `opengl`, `any`, or `name`".to_owned(),
            DiagKind::ExpectedNameIdent => "expected identifier `name`".to_owned(),
            DiagKind::ExpectedStringLiteral => "expected string literal".to_owned(),
            DiagKind::ExpectedNamePair => "expected `name = <string>`".to_owned(),
            DiagKind::EmptyAny => "no arguments detected".to_owned(),
            DiagKind::ExpectedPrototype => "expected a function prototype".to_owned(),
            DiagKind::MissingTerminator => "expected `;` after the declaration".to_owned(),
            DiagKind::ExpectedParameter => "expected `<pattern>: <type>` parameter".to_owned(),
            DiagKind::ReceiverParam => "receiver arguments are unsupported".to_owned(),
            DiagKind::DuplicateName => "duplicate function name".to_owned(),
            DiagKind::LifecycleArity => "lifecycle function lacks its tracked parameter".to_owned(),
        }
    }
}

} // verus!
