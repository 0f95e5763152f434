//! The annotation parser: from a flat token sequence to a `LinkType`.
//!
//! Three forms are accepted, tried in this precedence order:
//! a bare well-known keyword (`vulkan`, `opengl`); `name = "lib"`; and
//! `any(name = "lib", ...)` with a non-empty, optionally trailing-comma
//! argument list.  Anything else is a parse error carrying a diagnostic —
//! never a silent default.  The contract below states both directions:
//! a returned strategy is the exact image of the matched form, and an error
//! is returned only when no form matches at all.

use vstd::prelude::*;
use crate::tok::{Tok, TokV, Delim};
use crate::link::{LinkType, LinkTypeV, WellKnownApi};
use crate::diag::{Diagnostic, DiagKind, Span};

verus! {

/// The token sequence of a well-known form.
pub open spec fn well_known_form(api: WellKnownApi) -> Seq<TokV> {
    match api {
        WellKnownApi::PrimaryGraphicsApi => seq![TokV::Word("vulkan"@)],
        WellKnownApi::LegacyGraphicsApi => seq![TokV::Word("opengl"@)],
    }
}

/// The token sequence of one `name = "lib"` pair.
pub open spec fn name_pair(n: Seq<char>) -> Seq<TokV> {
    seq![TokV::Word("name"@), TokV::Punct('='), TokV::Str(n)]
}

/// The second form: exactly one `name = "lib"` pair.
pub open spec fn is_named_form(t: Seq<TokV>, n: Seq<char>) -> bool {
    t == name_pair(n)
}

/// The argument list of `any`, between its parentheses: the pairs of `libs`
/// separated by commas, with one optional trailing comma when non-empty.
pub open spec fn is_args_form(s: Seq<TokV>, libs: Seq<Seq<char>>) -> bool
    decreases libs.len(),
{
    if libs.len() == 0 {
        s.len() == 0
    } else {
        &&& s.len() >= 3
        &&& s[0] == TokV::Word("name"@)
        &&& s[1] == TokV::Punct('=')
        &&& s[2] == TokV::Str(libs[0])
        &&& if libs.len() == 1 {
                s.len() == 3 || (s.len() == 4 && s[3] == TokV::Punct(','))
            } else {
                &&& s.len() >= 4
                &&& s[3] == TokV::Punct(',')
                &&& is_args_form(s.skip(4), libs.drop_first())
            }
    }
}

/// The third form: `any(` arguments `)`.
pub open spec fn is_any_form(t: Seq<TokV>, libs: Seq<Seq<char>>) -> bool {
    &&& t.len() >= 3
    &&& t[0] == TokV::Word("any"@)
    &&& t[1] == TokV::Open(Delim::Paren)
    &&& t.last() == TokV::Close(Delim::Paren)
    &&& is_args_form(t.subrange(2, t.len() - 1), libs)
}

/// The diagnostic for a malformed argument list of `any`, walking the
/// pairs between the parentheses; `None` when the list is well-formed.
pub open spec fn any_args_error(t: Seq<TokV>, i: int, end: int) -> Option<Diagnostic>
    decreases end - i,
{
    if i >= end {
        None
    } else if !(t[i] == TokV::Word("name"@)) {
        if i + 1 < end && t[i + 1] == TokV::Punct('=') && t[i] is Word {
            Some(Diagnostic {
                kind: DiagKind::ExpectedNameIdent,
                span: Span { lo: i as usize, hi: (i + 1) as usize },
            })
        } else {
            Some(Diagnostic {
                kind: DiagKind::ExpectedNamePair,
                span: Span { lo: i as usize, hi: end as usize },
            })
        }
    } else if !(i + 1 < end && t[i + 1] == TokV::Punct('=')) {
        Some(Diagnostic {
            kind: DiagKind::ExpectedNamePair,
            span: Span { lo: i as usize, hi: end as usize },
        })
    } else if i + 2 >= end || !(t[i + 2] is Str) {
        Some(Diagnostic {
            kind: DiagKind::ExpectedStringLiteral,
            span: Span { lo: (i + 2) as usize, hi: end as usize },
        })
    } else if i + 3 == end {
        None
    } else if t[i + 3] == TokV::Punct(',') {
        any_args_error(t, i + 4, end)
    } else {
        Some(Diagnostic {
            kind: DiagKind::ExpectedNamePair,
            span: Span { lo: (i + 3) as usize, hi: end as usize },
        })
    }
}

/// The diagnostic for a malformed `any` annotation: a broken `any(...)`
/// shell, an empty argument list, or the first offending argument.
pub open spec fn any_error_spec(t: Seq<TokV>) -> Diagnostic {
    let n = t.len() as int;
    if !(n >= 2 && t[1] == TokV::Open(Delim::Paren)) {
        Diagnostic {
            kind: DiagKind::ExpectedStrategy,
            span: Span { lo: 0, hi: n as usize },
        }
    } else if !(t[n - 1] == TokV::Close(Delim::Paren)) {
        Diagnostic {
            kind: DiagKind::ExpectedStrategy,
            span: Span { lo: 0, hi: n as usize },
        }
    } else if n == 3 {
        Diagnostic { kind: DiagKind::EmptyAny, span: Span { lo: 0, hi: n as usize } }
    } else {
        match any_args_error(t, 2, n - 1) {
            Some(d) => d,
            None => Diagnostic {
                kind: DiagKind::ExpectedStrategy,
                span: Span { lo: 0, hi: n as usize },
            },
        }
    }
}

/// The diagnostic the parser reports when no form matches, by the head the
/// annotation committed to: a `name` head can only miss its string
/// literal, an `any` head is judged by `any_error_spec`, any other
/// assignment has the wrong left-hand identifier, and everything else gets
/// the message naming the valid alternatives.
pub open spec fn annotation_error_spec(t: Seq<TokV>) -> Diagnostic {
    let n = t.len() as int;
    if n >= 1 && t[0] == TokV::Word("name"@) {
        if n >= 2 && t[1] == TokV::Punct('=') {
            Diagnostic {
                kind: DiagKind::ExpectedStringLiteral,
                span: Span { lo: 2, hi: n as usize },
            }
        } else {
            Diagnostic {
                kind: DiagKind::ExpectedStrategy,
                span: Span { lo: 0, hi: n as usize },
            }
        }
    } else if n >= 1 && t[0] == TokV::Word("any"@) {
        any_error_spec(t)
    } else if n >= 2 && t[1] == TokV::Punct('=') {
        Diagnostic { kind: DiagKind::ExpectedNameIdent, span: Span { lo: 0, hi: 1 } }
    } else {
        Diagnostic {
            kind: DiagKind::ExpectedStrategy,
            span: Span { lo: 0, hi: n as usize },
        }
    }
}

/// A strategy is the exact image of the annotation's matched form.
pub open spec fn strategy_matches(t: Seq<TokV>, lv: LinkTypeV) -> bool {
    match lv {
        LinkTypeV::WellKnown(api) => t == well_known_form(api),
        LinkTypeV::Named(n) => is_named_form(t, n),
        LinkTypeV::NamedAny(ns) => ns.len() > 0 && is_any_form(t, ns),
    }
}

/// What `parse_annotation` promises: a strategy is the exact image of the
/// matched form; an error means no form matches, and an empty `any()` is
/// reported as exactly that.
pub open spec fn annotation_result_matches(t: Seq<TokV>, r: Result<LinkType, Diagnostic>) -> bool {
    match r {
        Ok(l) => strategy_matches(t, l.deep_view()),
        Err(d) => {
            &&& forall|api: WellKnownApi| t != #[trigger] well_known_form(api)
            &&& forall|n: Seq<char>| !is_named_form(t, n)
            &&& forall|ns: Seq<Seq<char>>| ns.len() > 0 ==> !is_any_form(t, ns)
            &&& (is_any_form(t, Seq::<Seq<char>>::empty()) ==> d.kind == DiagKind::EmptyAny)
            &&& d == annotation_error_spec(t)
        },
    }
}

/// The four keywords of the annotation grammar are pairwise distinct.
proof fn lemma_keywords_distinct()
    ensures
        "vulkan"@ != "name"@ && "vulkan"@ != "any"@,
        "opengl"@ != "name"@ && "opengl"@ != "any"@,
        "vulkan"@ != "opengl"@,
        "name"@ != "any"@,
{
    reveal_strlit("vulkan");
    reveal_strlit("opengl");
    reveal_strlit("name");
    reveal_strlit("any");
    assert("vulkan"@.len() == 6);
    assert("opengl"@.len() == 6);
    assert("name"@.len() == 4);
    assert("any"@.len() == 3);
    assert("vulkan"@[0] == 'v');
    assert("opengl"@[0] == 'o');
}

/// A pair followed by a comma starts the argument list exactly when the list
/// is non-empty, begins with that pair's library, and continues after them.
proof fn lemma_args_step(s: Seq<TokV>, n: Seq<char>)
    requires
        s.len() >= 4,
        s[0] == TokV::Word("name"@),
        s[1] == TokV::Punct('='),
        s[2] == TokV::Str(n),
        s[3] == TokV::Punct(','),
    ensures
        forall|libs: Seq<Seq<char>>| #[trigger] is_args_form(s, libs)
            <==> (libs.len() >= 1 && libs[0] == n && is_args_form(s.skip(4), libs.drop_first())),
{
    assert forall|libs: Seq<Seq<char>>| #[trigger] is_args_form(s, libs)
        <==> (libs.len() >= 1 && libs[0] == n && is_args_form(s.skip(4), libs.drop_first())) by {
        if libs.len() == 0 {
            assert(!is_args_form(s, libs));
        } else if libs.len() == 1 {
            assert(s.skip(4).len() == s.len() - 4);
            assert(is_args_form(s.skip(4), libs.drop_first()) <==> s.len() == 4);
            assert(is_args_form(s, libs) <==> (libs[0] == n && s.len() == 4));
        } else {
        }
    }
}

/// The annotation parser.  `toks` is the flat token sequence of the whole
/// annotation expression.
pub fn parse_annotation(toks: &Vec<Tok>) -> (r: Result<LinkType, Diagnostic>)
    ensures
        annotation_result_matches(toks.deep_view(), r),
{
    let ghost tv = toks.deep_view();
    let n = toks.len();
    proof {
        lemma_keywords_distinct();
    }
    if n == 1 && crate::tok::word_is(&toks[0], "vulkan") {
        proof {
            assert(tv =~= well_known_form(WellKnownApi::PrimaryGraphicsApi));
        }
        return Ok(LinkType::WellKnown(WellKnownApi::PrimaryGraphicsApi));
    }
    if n == 1 && crate::tok::word_is(&toks[0], "opengl") {
        proof {
            assert(tv =~= well_known_form(WellKnownApi::LegacyGraphicsApi));
        }
        return Ok(LinkType::WellKnown(WellKnownApi::LegacyGraphicsApi));
    }
    if n >= 1 && crate::tok::word_is(&toks[0], "name") {
        // Second form: the rest must be exactly `= "lib"`.
        if n >= 2 && crate::tok::punct_is(&toks[1], '=') {
            if n == 3 {
                match &toks[2] {
                    Tok::Str(lib) => {
                        proof {
                            assert(tv =~= name_pair(lib@));
                        }
                        return Ok(LinkType::Named(lib.clone()));
                    },
                    _ => {
                        proof {
                            no_forms_when_first_is_name(tv);
                        }
                        return Err(Diagnostic::new(DiagKind::ExpectedStringLiteral, 2, n));
                    },
                }
            }
            proof {
                no_forms_when_first_is_name(tv);
            }
            return Err(Diagnostic::new(DiagKind::ExpectedStringLiteral, 2, n));
        }
        proof {
            no_forms_when_first_is_name(tv);
        }
        return Err(Diagnostic::new(DiagKind::ExpectedStrategy, 0, n));
    }
    if n >= 1 && crate::tok::word_is(&toks[0], "any") {
        return parse_any_arguments(toks);
    }
    // Nothing matched the head of any form.
    proof {
        assert forall|api: WellKnownApi| tv != #[trigger] well_known_form(api) by {
            if tv.len() == 1 {
            }
        }
        assert forall|nm: Seq<char>| !is_named_form(tv, nm) by {
            if tv.len() == 3 {
                assert(name_pair(nm)[0] == TokV::Word("name"@));
            }
        }
        assert forall|ns: Seq<Seq<char>>| !is_any_form(tv, ns) by {
        }
    }
    // An assignment whose left-hand side is not literally `name` gets the
    // sharper message.
    if n >= 2 && crate::tok::punct_is(&toks[1], '=') {
        return Err(Diagnostic::new(DiagKind::ExpectedNameIdent, 0, 1));
    }
    Err(Diagnostic::new(DiagKind::ExpectedStrategy, 0, n))
}

/// When the annotation starts with the word `name` it can only be the second
/// form; this collects the refutations of the others.
proof fn no_forms_when_first_is_name(t: Seq<TokV>)
    requires
        t.len() >= 1,
        t[0] == TokV::Word("name"@),
        !(t.len() == 3 && t[1] == TokV::Punct('=') && t[2] is Str),
    ensures
        forall|api: WellKnownApi| t != #[trigger] well_known_form(api),
        forall|n: Seq<char>| !is_named_form(t, n),
        forall|ns: Seq<Seq<char>>| !is_any_form(t, ns),
{
    lemma_keywords_distinct();
    assert forall|api: WellKnownApi| t != #[trigger] well_known_form(api) by {
        assert(well_known_form(api).len() == 1);
        if t.len() == 1 {
            assert(well_known_form(api)[0] != TokV::Word("name"@));
        }
    }
    assert forall|n: Seq<char>| !is_named_form(t, n) by {
        if t.len() == 3 {
            assert(name_pair(n)[1] == TokV::Punct('='));
            assert(name_pair(n)[2] == TokV::Str(n));
        } else {
            assert(name_pair(n).len() == 3);
        }
    }
    assert forall|ns: Seq<Seq<char>>| !is_any_form(t, ns) by {
        assert(TokV::Word("any"@) != TokV::Word("name"@));
    }
}

/// Parses the arguments of the third form; `toks` starts with the word
/// `any`.
fn parse_any_arguments(toks: &Vec<Tok>) -> (r: Result<LinkType, Diagnostic>)
    requires
        toks.deep_view().len() >= 1,
        toks.deep_view()[0] == TokV::Word("any"@),
    ensures
        annotation_result_matches(toks.deep_view(), r),
{
    let ghost tv = toks.deep_view();
    let n = toks.len();
    proof {
        lemma_keywords_distinct();
        lemma_no_other_forms_after_any(tv);
    }
    if !(n >= 2 && crate::tok::open_is(&toks[1], Delim::Paren)) {
        proof {
            assert forall|ns: Seq<Seq<char>>| !is_any_form(tv, ns) by {}
            assert(annotation_error_spec(tv) == any_error_spec(tv));
        }
        return Err(Diagnostic::new(DiagKind::ExpectedStrategy, 0, n));
    }
    if !crate::tok::close_is(&toks[n - 1], Delim::Paren) {
        proof {
            assert forall|ns: Seq<Seq<char>>| !is_any_form(tv, ns) by {}
            assert(annotation_error_spec(tv) == any_error_spec(tv));
        }
        return Err(Diagnostic::new(DiagKind::ExpectedStrategy, 0, n));
    }
    // From here on the shape `any ( ... )` is fixed; only the argument list
    // between the parentheses decides.
    let end = n - 1;
    let ghost interior = tv.subrange(2, end as int);
    proof {
        assert(tv.len() >= 3) by {
            assert(tv[1] != tv[(n - 1) as int]);
        }
    }
    if end == 2 {
        proof {
            assert(interior.len() == 0);
            assert(is_args_form(interior, Seq::<Seq<char>>::empty()));
            assert forall|ns: Seq<Seq<char>>| ns.len() > 0 ==> !is_any_form(tv, ns) by {
                if ns.len() > 0 {
                    assert(!is_args_form(interior, ns));
                }
            }
            assert(annotation_error_spec(tv) == any_error_spec(tv));
        }
        return Err(Diagnostic::new(DiagKind::EmptyAny, 0, n));
    }
    let mut libs: Vec<String> = Vec::new();
    let mut i: usize = 2;
    proof {
        assert(interior.skip(0) =~= interior);
        assert(libs.deep_view().len() == 0);
        assert forall|full: Seq<Seq<char>>| #[trigger] is_args_form(interior, full)
            <==> (full.len() >= libs.deep_view().len()
                && full.take(libs.deep_view().len() as int) == libs.deep_view()
                && is_args_form(
                    interior.skip(0),
                    full.skip(libs.deep_view().len() as int),
                )) by {
            assert(full.take(0) =~= libs.deep_view());
            assert(full.skip(0) =~= full);
        }
    }
    while i < end
        invariant
            2 <= i <= end,
            end == n - 1,
            n == toks.len(),
            n >= 3,
            tv == toks.deep_view(),
            interior == tv.subrange(2, end as int),
            i == 2 ==> libs.len() == 0,
            i > 2 ==> libs.len() >= 1,
            forall|full: Seq<Seq<char>>| #[trigger] is_args_form(interior, full)
                <==> (full.len() >= libs.deep_view().len()
                    && full.take(libs.deep_view().len() as int) == libs.deep_view()
                    && is_args_form(
                        interior.skip(i - 2),
                        full.skip(libs.deep_view().len() as int),
                    )),
            any_args_error(tv, 2, end as int) == any_args_error(tv, i as int, end as int),
            annotation_error_spec(tv) == any_error_spec(tv),
            n > 3,
            tv.len() == n,
            tv[0] == TokV::Word("any"@),
            tv[1] == TokV::Open(Delim::Paren),
            tv[(n - 1) as int] == TokV::Close(Delim::Paren),
        decreases end - i,
    {
        let ghost acc = libs.deep_view();
        let ghost l = acc.len() as int;
        let ghost sj = interior.skip(i - 2);
        proof {
            assert(sj.len() == end - i);
            assert forall|k: int| 0 <= k < sj.len() implies sj[k] == tv[i + k] by {
                assert(interior[i - 2 + k] == tv[i + k]);
            }
        }
        // Expect a `name = "lib"` pair at `i`.
        if !crate::tok::word_is(&toks[i], "name") {
            proof {
                assert(sj[0] == tv[i as int]);
                assert forall|rest: Seq<Seq<char>>| !is_args_form(sj, rest) by {
                    if rest.len() > 0 {
                        assert(!(sj[0] == TokV::Word("name"@)));
                    }
                }
                lemma_interior_refuted(tv, interior, libs.deep_view(), (i - 2) as nat);
            }
            // A pair whose left-hand side is another word gets the sharper
            // message.
            let is_assign_other = i + 1 < end && crate::tok::punct_is(&toks[i + 1], '=');
            if is_assign_other {
                match &toks[i] {
                    Tok::Word(_) => {
                        proof {
                            assert(any_args_error(tv, i as int, end as int)
                                == Some(Diagnostic {
                                    kind: DiagKind::ExpectedNameIdent,
                                    span: Span { lo: i, hi: (i + 1) as usize },
                                }));
                        }
                        return Err(Diagnostic::new(DiagKind::ExpectedNameIdent, i, i + 1));
                    },
                    _ => {
                        proof {
                            assert(any_args_error(tv, i as int, end as int)
                                == Some(Diagnostic {
                                    kind: DiagKind::ExpectedNamePair,
                                    span: Span { lo: i, hi: end },
                                }));
                        }
                        return Err(Diagnostic::new(DiagKind::ExpectedNamePair, i, end));
                    },
                }
            }
            proof {
                assert(any_args_error(tv, i as int, end as int)
                    == Some(Diagnostic {
                        kind: DiagKind::ExpectedNamePair,
                        span: Span { lo: i, hi: end },
                    }));
            }
            return Err(Diagnostic::new(DiagKind::ExpectedNamePair, i, end));
        }
        if !(i + 1 < end && crate::tok::punct_is(&toks[i + 1], '=')) {
            proof {
                assert(sj.len() >= 1);
                if i + 1 < end {
                    assert(sj[1] == tv[i + 1]);
                }
                assert forall|rest: Seq<Seq<char>>| !is_args_form(sj, rest) by {
                    if rest.len() > 0 {
                        if sj.len() >= 3 {
                            assert(!(sj[1] == TokV::Punct('=')));
                        }
                    }
                }
                lemma_interior_refuted(tv, interior, libs.deep_view(), (i - 2) as nat);
                assert(any_args_error(tv, i as int, end as int)
                    == Some(Diagnostic {
                        kind: DiagKind::ExpectedNamePair,
                        span: Span { lo: i, hi: end },
                    }));
            }
            return Err(Diagnostic::new(DiagKind::ExpectedNamePair, i, end));
        }
        if i + 2 >= end {
            proof {
                assert(sj.len() == 2);
                assert forall|rest: Seq<Seq<char>>| !is_args_form(sj, rest) by {}
                lemma_interior_refuted(tv, interior, libs.deep_view(), (i - 2) as nat);
                assert(any_args_error(tv, i as int, end as int)
                    == Some(Diagnostic {
                        kind: DiagKind::ExpectedStringLiteral,
                        span: Span { lo: (i + 2) as usize, hi: end },
                    }));
            }
            return Err(Diagnostic::new(DiagKind::ExpectedStringLiteral, i + 2, end));
        }
        let lib: String = match &toks[i + 2] {
            Tok::Str(s) => s.clone(),
            _ => {
                proof {
                    assert(sj[2] == tv[i + 2]);
                    assert forall|rest: Seq<Seq<char>>| !is_args_form(sj, rest) by {
                        if rest.len() > 0 {
                            assert(!(sj[2] == TokV::Str(rest[0])));
                        }
                    }
                    lemma_interior_refuted(tv, interior, libs.deep_view(), (i - 2) as nat);
                    assert(any_args_error(tv, i as int, end as int)
                        == Some(Diagnostic {
                            kind: DiagKind::ExpectedStringLiteral,
                            span: Span { lo: (i + 2) as usize, hi: end },
                        }));
                }
                return Err(Diagnostic::new(DiagKind::ExpectedStringLiteral, i + 2, end));
            },
        };
        let ghost nm = lib@;
        proof {
            assert(sj[0] == tv[i as int] && sj[1] == tv[i + 1] && sj[2] == tv[i + 2]);
        }
        libs.push(lib);
        proof {
            assert(libs.deep_view() =~= acc.push(nm));
        }
        i = i + 3;
        if i < end {
            if !crate::tok::punct_is(&toks[i], ',') {
                proof {
                    assert(sj.len() >= 4);
                    assert(sj[3] == tv[i as int]);
                    assert forall|rest: Seq<Seq<char>>| !is_args_form(sj, rest) by {
                        if rest.len() == 1 {
                            assert(!(sj.len() == 3));
                            assert(!(sj.len() == 4 && sj[3] == TokV::Punct(',')));
                        } else if rest.len() > 1 {
                            assert(!(sj[3] == TokV::Punct(',')));
                        }
                    }
                    lemma_interior_refuted(tv, interior, acc, (i - 5) as nat);
                    assert(any_args_error(tv, i - 3, end as int)
                        == Some(Diagnostic {
                            kind: DiagKind::ExpectedNamePair,
                            span: Span { lo: i, hi: end },
                        }));
                }
                return Err(Diagnostic::new(DiagKind::ExpectedNamePair, i, end));
            }
            i = i + 1;
            // Consumed `name = "lib" ,`: the step lemma rebases the
            // characterization at the next pair boundary.
            proof {
                assert(sj[3] == tv[i - 1]);
                lemma_args_step(sj, nm);
                assert(sj.skip(4) =~= interior.skip(i - 2));
                lemma_inv_advance(interior, acc, nm, (i - 6) as nat);
                assert(any_args_error(tv, i - 4, end as int)
                    == any_args_error(tv, i as int, end as int));
            }
        } else {
            // The pair ended the list, with or without a trailing comma.
            if i == end {
                proof {
                    assert(any_args_error(tv, i - 3, end as int) is None);
                    assert(sj.len() == 3);
                    assert forall|rest: Seq<Seq<char>>| #[trigger] is_args_form(sj, rest)
                        <==> rest == seq![nm] by {
                        if rest.len() == 1 {
                            assert(is_args_form(sj, rest) <==> rest[0] == nm);
                            if rest[0] == nm {
                                assert(rest =~= seq![nm]);
                            }
                        } else if rest == seq![nm] {
                            assert(rest.len() == 1);
                        }
                    }
                    lemma_inv_close(interior, acc, nm, (i - 5) as nat);
                }
            } else {
                // i > end cannot happen: i was at most end - 1 before + 3.
                proof {
                    assert(false) by {
                        assert(i - 3 + 2 < end);
                    }
                }
            }
        }
    }
    // The whole interior was consumed: the collected list is the one and
    // only match.
    proof {
        assert(interior.skip(i - 2).len() == 0);
        assert(is_args_form(interior.skip(i - 2), libs.deep_view().skip(libs.deep_view().len() as int)))
            by {
            assert(libs.deep_view().skip(libs.deep_view().len() as int).len() == 0);
        }
        assert(libs.deep_view().take(libs.deep_view().len() as int) =~= libs.deep_view());
        assert(is_args_form(interior, libs.deep_view()));
        assert(libs.len() >= 1);
    }
    Ok(LinkType::NamedAny(libs))
}

/// Once the head word is `any`, neither of the other two forms can match.
proof fn lemma_no_other_forms_after_any(t: Seq<TokV>)
    requires
        t.len() >= 1,
        t[0] == TokV::Word("any"@),
    ensures
        forall|api: WellKnownApi| t != #[trigger] well_known_form(api),
        forall|n: Seq<char>| !is_named_form(t, n),
{
    lemma_keywords_distinct();
    assert forall|api: WellKnownApi| t != #[trigger] well_known_form(api) by {
        if t.len() == 1 {
            assert(well_known_form(api)[0] != TokV::Word("any"@));
        } else {
            assert(well_known_form(api).len() == 1);
        }
    }
    assert forall|n: Seq<char>| !is_named_form(t, n) by {
        if t.len() == 3 {
            assert(name_pair(n)[0] == TokV::Word("name"@));
        } else {
            assert(name_pair(n).len() == 3);
        }
    }
}

/// Lifts a refutation of the remaining argument list to the whole `any`
/// form: no candidate list at all can match the annotation.
proof fn lemma_interior_refuted(t: Seq<TokV>, interior: Seq<TokV>, acc: Seq<Seq<char>>, j: nat)
    requires
        interior == t.subrange(2, t.len() - 1),
        t.len() >= 3,
        forall|full: Seq<Seq<char>>| #[trigger] is_args_form(interior, full)
            <==> (full.len() >= acc.len()
                && full.take(acc.len() as int) == acc
                && is_args_form(interior.skip(j as int), full.skip(acc.len() as int))),
        forall|rest: Seq<Seq<char>>| !is_args_form(interior.skip(j as int), rest),
    ensures
        forall|ns: Seq<Seq<char>>| !is_any_form(t, ns),
        !is_any_form(t, Seq::<Seq<char>>::empty()),
{
    assert forall|ns: Seq<Seq<char>>| !is_any_form(t, ns) by {
        assert(!is_args_form(interior, ns));
    }
}

/// Advances the argument-list characterization across one consumed
/// `name = "lib" ,` unit.
proof fn lemma_inv_advance(interior: Seq<TokV>, acc: Seq<Seq<char>>, nm: Seq<char>, j: nat)
    requires
        j + 4 <= interior.len(),
        forall|full: Seq<Seq<char>>| #[trigger] is_args_form(interior, full)
            <==> (full.len() >= acc.len()
                && full.take(acc.len() as int) == acc
                && is_args_form(interior.skip(j as int), full.skip(acc.len() as int))),
        forall|rest: Seq<Seq<char>>| #[trigger] is_args_form(interior.skip(j as int), rest)
            <==> (rest.len() >= 1 && rest[0] == nm
                && is_args_form(interior.skip(j as int + 4), rest.drop_first())),
    ensures
        forall|full: Seq<Seq<char>>| #[trigger] is_args_form(interior, full)
            <==> (full.len() >= acc.push(nm).len()
                && full.take(acc.push(nm).len() as int) == acc.push(nm)
                && is_args_form(interior.skip(j as int + 4), full.skip(acc.push(nm).len() as int))),
{
    let l = acc.len() as int;
    assert forall|full: Seq<Seq<char>>| #[trigger] is_args_form(interior, full)
        <==> (full.len() >= acc.push(nm).len()
            && full.take(acc.push(nm).len() as int) == acc.push(nm)
            && is_args_form(interior.skip(j as int + 4), full.skip(acc.push(nm).len() as int))) by {
        if is_args_form(interior, full) {
            assert(full.len() >= l && full.take(l) == acc
                && is_args_form(interior.skip(j as int), full.skip(l)));
            let rest = full.skip(l);
            assert(rest.len() >= 1 && rest[0] == nm
                && is_args_form(interior.skip(j as int + 4), rest.drop_first()));
            assert(full.len() >= l + 1);
            assert(full[l] == rest[0]);
            assert(full.take(l + 1) =~= acc.push(nm));
            assert(full.skip(l + 1) =~= rest.drop_first());
        } else {
            if full.len() >= l + 1 && full.take(l + 1) == acc.push(nm)
                && is_args_form(interior.skip(j as int + 4), full.skip(l + 1)) {
                assert(full.take(l) =~= acc) by {
                    assert forall|k: int| 0 <= k < l implies full.take(l)[k] == acc[k] by {
                        assert(full.take(l + 1)[k] == acc.push(nm)[k]);
                    }
                }
                let rest = full.skip(l);
                assert(rest[0] == full[l]);
                assert(full[l] == full.take(l + 1)[l]);
                assert(rest.drop_first() =~= full.skip(l + 1));
                assert(is_args_form(interior.skip(j as int), rest));
                assert(is_args_form(interior, full));
                assert(false);
            }
        }
    }
}

/// Closes the characterization when the final pair (with or without a
/// trailing comma) ends the list.
proof fn lemma_inv_close(interior: Seq<TokV>, acc: Seq<Seq<char>>, nm: Seq<char>, j: nat)
    requires
        forall|full: Seq<Seq<char>>| #[trigger] is_args_form(interior, full)
            <==> (full.len() >= acc.len()
                && full.take(acc.len() as int) == acc
                && is_args_form(interior.skip(j as int), full.skip(acc.len() as int))),
        forall|rest: Seq<Seq<char>>| #[trigger] is_args_form(interior.skip(j as int), rest)
            <==> rest == seq![nm],
    ensures
        forall|full: Seq<Seq<char>>| #[trigger] is_args_form(interior, full)
            <==> (full.len() >= acc.push(nm).len()
                && full.take(acc.push(nm).len() as int) == acc.push(nm)
                && is_args_form(
                    interior.skip(interior.len() as int),
                    full.skip(acc.push(nm).len() as int),
                )),
{
    let l = acc.len() as int;
    assert(interior.skip(interior.len() as int).len() == 0);
    assert forall|full: Seq<Seq<char>>| #[trigger] is_args_form(interior, full)
        <==> (full.len() >= l + 1
            && full.take(l + 1) == acc.push(nm)
            && is_args_form(
                interior.skip(interior.len() as int),
                full.skip(l + 1),
            )) by {
        if is_args_form(interior, full) {
            let rest = full.skip(l);
            assert(rest == seq![nm]);
            assert(full.len() == l + 1);
            assert(full[l] == nm) by {
                assert(full.skip(l)[0] == full[l]);
            }
            assert(full.take(l + 1) =~= acc.push(nm));
            assert(full.skip(l + 1).len() == 0);
            assert(is_args_form(interior.skip(interior.len() as int), full.skip(l + 1)));
        } else {
            if full.len() >= l + 1 && full.take(l + 1) == acc.push(nm)
                && is_args_form(interior.skip(interior.len() as int), full.skip(l + 1)) {
                assert(full.skip(l + 1).len() == 0);
                assert(full.len() == l + 1);
                assert(full.take(l) =~= acc) by {
                    assert forall|k: int| 0 <= k < l implies full.take(l)[k] == acc[k] by {
                        assert(full.take(l + 1)[k] == acc.push(nm)[k]);
                    }
                }
                assert(full.skip(l) =~= seq![nm]) by {
                    assert(full.skip(l).len() == 1);
                    assert(full.skip(l)[0] == full[l]);
                    assert(full[l] == full.take(l + 1)[l]);
                    assert(acc.push(nm)[l] == nm);
                }
                assert(is_args_form(interior.skip(j as int), full.skip(l)));
                assert(is_args_form(interior, full));
                assert(false);
            }
        }
    }
}

} // verus!
