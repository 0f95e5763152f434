//! The declaration parser: from the token sequence of a block of foreign
//! function prototypes to an ordered sequence of `FunctionSignature`s.
//!
//! The block shares one calling-convention tag, supplied by the caller
//! alongside the tokens of the block's body.  Each declaration must be a
//! function prototype terminated by `;`.  A malformed declaration is
//! isolated: it yields a diagnostic while the remaining declarations still
//! parse.  Receiver-style parameters are rejected — the generated trampoline
//! is a free function — and duplicate function names within one block are an
//! error, because the cache cell named after the function is the block's
//! public symbol.

use vstd::prelude::*;
use crate::tok::{Tok, TokV, Delim};
use crate::diag::{Diagnostic, DiagKind, Span};
use crate::sig::{PatKind, PatKindV, RawParam, RawParamV};

verus! {

/// The payload of a word token; empty for every other token.
pub open spec fn word_of(t: TokV) -> Seq<char> {
    match t {
        TokV::Word(s) => s,
        _ => Seq::<char>::empty(),
    }
}

/// Strips one leading `&` from a parameter chunk.
pub open spec fn strip_amp(c: Seq<TokV>) -> Seq<TokV> {
    if c.len() >= 1 && c[0] == TokV::Punct('&') {
        c.skip(1)
    } else {
        c
    }
}

/// Strips one leading lifetime (an apostrophe followed by a word).
pub open spec fn strip_lifetime(c: Seq<TokV>) -> Seq<TokV> {
    if c.len() >= 2 && c[0] == TokV::Punct('\'') && c[1] is Word {
        c.skip(2)
    } else {
        c
    }
}

/// Strips one leading `mut`.
pub open spec fn strip_mut(c: Seq<TokV>) -> Seq<TokV> {
    if c.len() >= 1 && c[0] == TokV::Word("mut"@) {
        c.skip(1)
    } else {
        c
    }
}

/// A receiver-style parameter: `self` in any of its forms — plain, typed
/// (`self: T`), borrowed, with an optional lifetime and mutability.
pub open spec fn is_receiver_chunk(c: Seq<TokV>) -> bool {
    let d = strip_mut(strip_lifetime(strip_amp(c)));
    d.len() >= 1 && d[0] == TokV::Word("self"@)
}

/// Classifies one parameter chunk: a receiver is rejected outright; an
/// accepted parameter is a pattern, a colon, and a non-empty type, and the
/// result carries the pattern with the chunk-relative offset of the type.
pub open spec fn param_chunk_result(c: Seq<TokV>) -> Result<(PatKindV, int), DiagKind> {
    if is_receiver_chunk(c) {
        Err(DiagKind::ReceiverParam)
    } else if c.len() >= 3 && c[0] == TokV::Word("_"@) && c[1] == TokV::Punct(':') {
        Ok((PatKindV::Wild, 2))
    } else if c.len() >= 4 && c[0] == TokV::Word("mut"@) && c[1] is Word
        && word_of(c[1]) != "_"@ && c[2] == TokV::Punct(':') {
        Ok((PatKindV::Ident(word_of(c[1])), 3))
    } else if c.len() >= 3 && c[0] is Word && c[1] == TokV::Punct(':') {
        Ok((PatKindV::Ident(word_of(c[0])), 2))
    } else {
        Err(DiagKind::ExpectedParameter)
    }
}

/// The length of the leading parameter chunk of the region starting at
/// `k`: the tokens before the next comma outside any nested group (all the
/// remaining tokens when no such comma follows), given the nesting depth
/// accumulated so far.
pub open spec fn chunk_len(t: Seq<TokV>, k: int, hi: int, depth: int) -> nat
    decreases hi - k,
{
    if k >= hi {
        0
    } else if depth == 0 && t[k] == TokV::Punct(',') {
        0
    } else {
        (1 + chunk_len(t, k + 1, hi, depth + delta(t[k]))) as nat
    }
}

/// The parameters of the region `[lo, hi)` between a prototype's
/// parentheses, classified chunk by chunk: chunks are separated by commas
/// outside nested groups, one trailing comma is allowed, and the first
/// failing chunk decides the error, which carries that chunk's range.
pub open spec fn region_params(t: Seq<TokV>, lo: int, hi: int) -> Result<
    Seq<RawParamV>,
    Diagnostic,
>
    decreases hi - lo,
{
    if lo >= hi {
        Ok(Seq::<RawParamV>::empty())
    } else {
        let ce = lo + chunk_len(t, lo, hi, 0);
        match param_chunk_result(t.subrange(lo, ce)) {
            Err(k) => Err(Diagnostic {
                kind: k,
                span: Span { lo: lo as usize, hi: ce as usize },
            }),
            Ok(po) => {
                let rp = RawParamV {
                    pat: po.0,
                    ty: Span { lo: (lo + po.1) as usize, hi: ce as usize },
                };
                if ce >= hi {
                    Ok(seq![rp])
                } else {
                    match region_params(t, ce + 1, hi) {
                        Ok(rest) => Ok(seq![rp] + rest),
                        Err(d) => Err(d),
                    }
                }
            },
        }
    }
}

/// The contribution of one token to the nesting depth.
pub open spec fn delta(t: TokV) -> int {
    match t {
        TokV::Open(_) => 1,
        TokV::Close(_) => -1,
        _ => 0,
    }
}

/// The nesting depth immediately before the token at position `k`.
pub open spec fn depth_at(t: Seq<TokV>, k: int) -> int
    decreases k,
{
    if k <= 0 {
        0
    } else {
        depth_at(t, k - 1) + delta(t[k - 1])
    }
}

/// True at positions holding a `;` outside any delimited group: the
/// terminators that separate the declarations of a block.
pub open spec fn is_term(t: Seq<TokV>, k: int) -> bool {
    t[k] == TokV::Punct(';') && depth_at(t, k) == 0
}

/// How many terminators the first `k` tokens hold.
pub open spec fn count_terms(t: Seq<TokV>, k: int) -> int
    decreases k,
{
    if k <= 0 {
        0
    } else {
        count_terms(t, k - 1) + if is_term(t, k - 1) { 1int } else { 0int }
    }
}

/// A prefix of `k` tokens holds at most `k` terminators.
pub proof fn lemma_count_terms_le(t: Seq<TokV>, k: int)
    requires
        k >= 0,
    ensures
        0 <= count_terms(t, k) <= k,
    decreases k,
{
    if k > 0 {
        lemma_count_terms_le(t, k - 1);
    }
}

/// Prefix terminator counts never decrease.
proof fn lemma_count_terms_mono(t: Seq<TokV>, j: int, k: int)
    requires
        0 <= j <= k,
    ensures
        count_terms(t, j) <= count_terms(t, k),
    decreases k - j,
{
    if j < k {
        lemma_count_terms_mono(t, j, k - 1);
    }
}

/// The position of the `i`-th terminator at or after `k`; the sequence's
/// length when no such terminator exists.
pub open spec fn nth_term(t: Seq<TokV>, k: int, i: int) -> int
    decreases t.len() - k,
{
    if k < 0 || k >= t.len() {
        t.len() as int
    } else if is_term(t, k) {
        if i <= 0 {
            k
        } else {
            nth_term(t, k + 1, i - 1)
        }
    } else {
        nth_term(t, k + 1, i)
    }
}

/// Where declaration `i` of a block starts.
pub open spec fn chunk_lo(t: Seq<TokV>, i: int) -> int {
    if i <= 0 {
        0
    } else {
        nth_term(t, 0, i - 1) + 1
    }
}

/// Where declaration `i`'s terminator stands.
pub open spec fn chunk_hi(t: Seq<TokV>, i: int) -> int {
    nth_term(t, 0, i)
}

/// A terminator with exactly `m` earlier terminators from `j` on is the
/// `m`-th one counted from `j`.
proof fn lemma_nth_term(t: Seq<TokV>, j: int, k: int, m: int)
    requires
        0 <= j <= k < t.len(),
        is_term(t, k),
        count_terms(t, k) - count_terms(t, j) == m,
    ensures
        nth_term(t, j, m) == k,
    decreases k - j,
{
    if j == k {
    } else {
        lemma_count_terms_mono(t, j + 1, k);
        assert(count_terms(t, j + 1)
            == count_terms(t, j) + if is_term(t, j) { 1int } else { 0int });
        if is_term(t, j) {
            lemma_nth_term(t, j + 1, k, m - 1);
        } else {
            lemma_nth_term(t, j + 1, k, m);
        }
    }
}

/// The position right after the last terminator among the first `k` tokens
/// (0 when there is none): where the block's unterminated tail starts.
pub open spec fn tail_start(t: Seq<TokV>, k: int) -> int
    decreases k,
{
    if k <= 0 {
        0
    } else if is_term(t, k - 1) {
        k
    } else {
        tail_start(t, k - 1)
    }
}

/// Splits a block body into its `;`-terminated declarations.  Each returned
/// span covers the tokens of one declaration, excluding its terminator; the
/// spans are adjacent, in order, and exhaust every terminator, and `rest`
/// marks where the unterminated tail (if any) starts.
pub fn split_items(toks: &Vec<Tok>) -> (r: (Vec<Span>, usize))
    ensures
        ({
            let t = toks.deep_view();
            let n = t.len() as int;
            let chunks = r.0@;
            let rest = r.1 as int;
            &&& chunks.len() == count_terms(t, n)
            &&& rest == tail_start(t, n)
            &&& rest <= n
            &&& forall|i: int| 0 <= i < chunks.len() ==> {
                &&& (#[trigger] chunks[i]).lo == (if i == 0 { 0int } else { chunks[i - 1].hi + 1 })
                &&& chunks[i].lo <= chunks[i].hi < n
                &&& is_term(t, chunks[i].hi as int)
                &&& forall|p: int| chunks[i].lo <= p < chunks[i].hi ==> !is_term(t, p)
            }
            &&& forall|i: int| 0 <= i < chunks.len()
                ==> (#[trigger] chunks[i]).lo == chunk_lo(t, i)
                    && chunks[i].hi == chunk_hi(t, i)
            &&& forall|p: int| rest <= p < n ==> !is_term(t, p)
            &&& (chunks.len() > 0 ==> rest == chunks[chunks.len() - 1].hi + 1)
            &&& (chunks.len() == 0 ==> rest == 0)
        }),
{
    let ghost t = toks.deep_view();
    let n = toks.len();
    let mut chunks: Vec<Span> = Vec::new();
    let mut cs: usize = 0;
    let mut depth: i128 = 0;
    let mut k: usize = 0;
    while k < n
        invariant
            k <= n,
            cs <= k,
            n == toks.len(),
            t == toks.deep_view(),
            depth == depth_at(t, k as int),
            cs == tail_start(t, k as int),
            chunks@.len() == count_terms(t, k as int),
            forall|i: int| 0 <= i < chunks@.len() ==> {
                &&& (#[trigger] chunks@[i]).lo
                    == (if i == 0 { 0int } else { chunks@[i - 1].hi + 1 })
                &&& chunks@[i].lo <= chunks@[i].hi < k
                &&& is_term(t, chunks@[i].hi as int)
                &&& forall|p: int| chunks@[i].lo <= p < chunks@[i].hi
                    ==> !is_term(t, p)
            },
            forall|i: int| 0 <= i < chunks@.len()
                ==> (#[trigger] chunks@[i]).lo == chunk_lo(t, i)
                    && chunks@[i].hi == chunk_hi(t, i),
            forall|p: int| cs <= p < k ==> !is_term(t, p),
            (chunks@.len() > 0
                ==> cs == chunks@[chunks@.len() - 1].hi + 1),
            (chunks@.len() == 0 ==> cs == 0),
            -(k as int) <= depth <= k as int,
        decreases n - k,
    {
        let is_semi = depth == 0 && crate::tok::punct_is(&toks[k], ';');
        if is_semi {
            let sp = Span::new(cs, k);
            proof {
                assert(count_terms(t, 0) == 0);
                lemma_nth_term(t, 0, k as int, chunks@.len() as int);
            }
            chunks.push(sp);
            cs = k + 1;
        }
        proof {
            assert(depth_at(t, k as int + 1) == depth_at(t, k as int) + delta(t[k as int]));
            assert(count_terms(t, k as int + 1)
                == count_terms(t, k as int) + if is_term(t, k as int) { 1int } else { 0int });
            assert(tail_start(t, k as int + 1)
                == if is_term(t, k as int) { k as int + 1 } else { tail_start(t, k as int) });
        }
        match &toks[k] {
            Tok::Open(_) => { depth = depth + 1; },
            Tok::Close(_) => { depth = depth - 1; },
            _ => {},
        }
        k = k + 1;
    }
    (chunks, cs)
}

/// The offset, from `k`, of the token closing the group that is already
/// `depth` levels open, provided it closes with `delim`; `None` when the
/// group never closes before `hi` or closes with another delimiter.
pub open spec fn close_ofs(t: Seq<TokV>, k: int, hi: int, depth: int, delim: Delim) -> Option<nat>
    decreases hi - k,
{
    if k >= hi {
        None
    } else {
        match t[k] {
            TokV::Open(_) => match close_ofs(t, k + 1, hi, depth + 1, delim) {
                Some(o) => Some((o + 1) as nat),
                None => None,
            },
            TokV::Close(d) => if depth == 1 {
                if d == delim {
                    Some(0)
                } else {
                    None
                }
            } else {
                match close_ofs(t, k + 1, hi, depth - 1, delim) {
                    Some(o) => Some((o + 1) as nat),
                    None => None,
                }
            },
            _ => match close_ofs(t, k + 1, hi, depth, delim) {
                Some(o) => Some((o + 1) as nat),
                None => None,
            },
        }
    }
}

/// A found closing token lies before `hi` and is the wanted delimiter.
proof fn lemma_close_ofs_bounds(t: Seq<TokV>, k: int, hi: int, depth: int, delim: Delim)
    requires
        close_ofs(t, k, hi, depth, delim) matches Some(o),
    ensures
        ({
            let o = close_ofs(t, k, hi, depth, delim)->Some_0;
            k + o < hi && t[k + o] == TokV::Close(delim)
        }),
    decreases hi - k,
{
    let o = close_ofs(t, k, hi, depth, delim)->Some_0;
    if k < hi {
        match t[k] {
            TokV::Open(_) => {
                lemma_close_ofs_bounds(t, k + 1, hi, depth + 1, delim);
            },
            TokV::Close(d) => {
                if depth != 1 {
                    lemma_close_ofs_bounds(t, k + 1, hi, depth - 1, delim);
                }
            },
            _ => {
                lemma_close_ofs_bounds(t, k + 1, hi, depth, delim);
            },
        }
    }
}

/// The end of one well-formed attribute starting at `j`: a `#` followed by
/// a bracketed group closed before `hi`.
pub open spec fn attr_end(t: Seq<TokV>, j: int, hi: int) -> Option<int> {
    if j + 1 < hi && t[j] == TokV::Punct('#') && t[j + 1] == TokV::Open(Delim::Bracket) {
        match close_ofs(t, j + 2, hi, 1, Delim::Bracket) {
            Some(o) => if j + 3 + o <= hi {
                Some(j + 3 + o)
            } else {
                None
            },
            None => None,
        }
    } else {
        None
    }
}

/// The leading attributes of a declaration, each a `#[...]` group: their
/// spans and the position after them.  A `#` not followed by a closed
/// bracket group fails the declaration.
pub open spec fn scan_attrs(t: Seq<TokV>, j: int, hi: int) -> Result<(Seq<Span>, int), Diagnostic>
    decreases hi - j,
{
    if !(j < hi && t[j] == TokV::Punct('#')) {
        Ok((Seq::<Span>::empty(), j))
    } else {
        match attr_end(t, j, hi) {
            None => Err(Diagnostic {
                kind: DiagKind::ExpectedPrototype,
                span: Span { lo: j as usize, hi: hi as usize },
            }),
            Some(e) => match scan_attrs(t, e, hi) {
                Ok(rest) => Ok((seq![Span { lo: j as usize, hi: e as usize }] + rest.0, rest.1)),
                Err(d) => Err(d),
            },
        }
    }
}

/// The visibility qualifier of a declaration: absent, a bare `pub`, or
/// `pub` with a parenthesized restriction.  An unclosed restriction fails
/// the declaration.
pub open spec fn vis_result(t: Seq<TokV>, j: int, hi: int) -> Result<
    (Option<Span>, int),
    Diagnostic,
> {
    if j < hi && t[j] == TokV::Word("pub"@) {
        if j + 1 < hi && t[j + 1] == TokV::Open(Delim::Paren) {
            match close_ofs(t, j + 2, hi, 1, Delim::Paren) {
                Some(o) => Ok((
                    Some(Span { lo: j as usize, hi: (j + 3 + o) as usize }),
                    j + 3 + o,
                )),
                None => Err(Diagnostic {
                    kind: DiagKind::ExpectedPrototype,
                    span: Span { lo: j as usize, hi: hi as usize },
                }),
            }
        } else {
            Ok((Some(Span { lo: j as usize, hi: (j + 1) as usize }), j + 1))
        }
    } else {
        Ok((None, j))
    }
}

/// One declaration, classified exactly: optional attributes, an optional
/// visibility qualifier, `fn`, the function's name, its parenthesized
/// parameters, an optional `-> type`, and nothing further.  Anything that
/// deviates yields the stated diagnostic — this library rejects
/// non-function items in a block rather than passing them through.
pub open spec fn item_result(t: Seq<TokV>, lo: int, hi: int, abi: Seq<char>) -> Result<
    crate::sig::FunctionSignatureV,
    Diagnostic,
> {
    match scan_attrs(t, lo, hi) {
        Err(d) => Err(d),
        Ok(ar) => match vis_result(t, ar.1, hi) {
            Err(d) => Err(d),
            Ok(vr) => {
                let j = vr.1;
                if !(j < hi && t[j] == TokV::Word("fn"@)) {
                    Err(Diagnostic {
                        kind: DiagKind::ExpectedPrototype,
                        span: Span { lo: j as usize, hi: hi as usize },
                    })
                } else if !(j + 1 < hi && t[j + 1] is Word) {
                    Err(Diagnostic {
                        kind: DiagKind::ExpectedPrototype,
                        span: Span { lo: (j + 1) as usize, hi: hi as usize },
                    })
                } else if !(j + 2 < hi && t[j + 2] == TokV::Open(Delim::Paren)) {
                    Err(Diagnostic {
                        kind: DiagKind::ExpectedPrototype,
                        span: Span { lo: (j + 2) as usize, hi: hi as usize },
                    })
                } else {
                    match close_ofs(t, j + 3, hi, 1, Delim::Paren) {
                        None => Err(Diagnostic {
                            kind: DiagKind::ExpectedPrototype,
                            span: Span { lo: (j + 2) as usize, hi: hi as usize },
                        }),
                        Some(o) => {
                            let cp = j + 3 + o;
                            match region_params(t, j + 3, cp) {
                                Err(d) => Err(d),
                                Ok(ps) => {
                                    let retr: Result<Option<Span>, Diagnostic> = if cp + 1 == hi {
                                        Ok(None)
                                    } else if cp + 2 < hi && t[cp + 1] == TokV::Punct('-')
                                        && t[cp + 2] == TokV::Punct('>') && cp + 3 < hi {
                                        Ok(Some(Span { lo: (cp + 3) as usize, hi: hi as usize }))
                                    } else {
                                        Err(Diagnostic {
                                            kind: DiagKind::ExpectedPrototype,
                                            span: Span { lo: (cp + 1) as usize, hi: hi as usize },
                                        })
                                    };
                                    match retr {
                                        Err(d) => Err(d),
                                        Ok(ret) => Ok(crate::sig::FunctionSignatureV {
                                            name: word_of(t[j + 1]),
                                            attrs: ar.0,
                                            vis: vr.0,
                                            abi,
                                            params: crate::sig::lowered_params(ps),
                                            ret,
                                            span: Span { lo: lo as usize, hi: hi as usize },
                                        }),
                                    }
                                },
                            }
                        },
                    }
                }
            },
        },
    }
}

/// Finds the `Close(delim)` token that closes the group opened at `open`,
/// scanning no further than `hi`, exactly as `close_ofs` locates it.
fn find_close(toks: &Vec<Tok>, open: usize, hi: usize, delim: Delim) -> (r: Option<usize>)
    requires
        open < hi <= toks.deep_view().len(),
    ensures
        ({
            let t = toks.deep_view();
            match close_ofs(t, open as int + 1, hi as int, 1, delim) {
                Some(o) => r matches Some(c) && c as int == open + 1 + o,
                None => r is None,
            }
        }),
        r matches Some(c) ==> open < c < hi
            && toks.deep_view()[c as int] == TokV::Close(delim),
{
    let ghost t = toks.deep_view();
    let mut depth: i128 = 1;
    let mut k = open + 1;
    while k < hi
        invariant
            open < k <= hi <= toks.deep_view().len(),
            t == toks.deep_view(),
            1 - (k as int) <= depth <= 1 + (k as int),
            match close_ofs(t, k as int, hi as int, depth as int, delim) {
                Some(o) => close_ofs(t, open as int + 1, hi as int, 1, delim)
                    == Some(((k - open - 1) + o) as nat),
                None => close_ofs(t, open as int + 1, hi as int, 1, delim) is None,
            },
        decreases hi - k,
    {
        match &toks[k] {
            Tok::Open(_) => { depth = depth + 1; },
            Tok::Close(d) => {
                depth = depth - 1;
                if depth == 0 {
                    if *d == delim {
                        proof {
                            assert(close_ofs(t, k as int, hi as int, 1, delim)
                                == Some(0 as nat));
                        }
                        return Some(k);
                    }
                    proof {
                        assert(close_ofs(t, k as int, hi as int, 1, delim)
                            is None);
                    }
                    return None;
                }
            },
            _ => {},
        }
        k = k + 1;
    }
    None
}

/// True if the tokens in `[lo, hi)` form a receiver-style parameter.
fn receiver_check(toks: &Vec<Tok>, lo: usize, hi: usize) -> (r: bool)
    requires
        lo <= hi <= toks.deep_view().len(),
    ensures
        r == is_receiver_chunk(toks.deep_view().subrange(lo as int, hi as int)),
{
    let ghost tv = toks.deep_view();
    let ghost c = tv.subrange(lo as int, hi as int);
    let mut j = lo;
    if j < hi && crate::tok::punct_is(&toks[j], '&') {
        j = j + 1;
    }
    proof {
        assert(tv.subrange(j as int, hi as int) =~= strip_amp(c));
    }
    let ghost c1 = strip_amp(c);
    let has_lifetime = hi - j >= 2 && crate::tok::punct_is(&toks[j], '\'')
        && matches!(&toks[j + 1], Tok::Word(_));
    if has_lifetime {
        j = j + 2;
    }
    proof {
        assert(tv.subrange(j as int, hi as int) =~= strip_lifetime(c1));
    }
    let ghost c2 = strip_lifetime(c1);
    if j < hi && crate::tok::word_is(&toks[j], "mut") {
        j = j + 1;
    }
    proof {
        assert(tv.subrange(j as int, hi as int) =~= strip_mut(c2));
    }
    j < hi && crate::tok::word_is(&toks[j], "self")
}

/// Parses one parameter chunk at `[lo, hi)` exactly as `param_chunk_result`
/// classifies it; an accepted parameter's type is the tokens after the
/// colon.
pub fn parse_param(toks: &Vec<Tok>, lo: usize, hi: usize) -> (r: Result<RawParam, Diagnostic>)
    requires
        lo <= hi <= toks.deep_view().len(),
    ensures
        ({
            let c = toks.deep_view().subrange(lo as int, hi as int);
            match param_chunk_result(c) {
                Ok(po) => r matches Ok(rp)
                    && rp.pat.deep_view() == po.0
                    && rp.ty.lo == lo + po.1
                    && rp.ty.hi == hi,
                Err(k) => r matches Err(d) && d.kind == k
                    && d.span.lo == lo && d.span.hi == hi,
            }
        }),
{
    let ghost tv = toks.deep_view();
    let ghost c = tv.subrange(lo as int, hi as int);
    proof {
        reveal_strlit("mut");
        reveal_strlit("_");
        assert("mut"@.len() == 3);
        assert("_"@.len() == 1);
    }
    if receiver_check(toks, lo, hi) {
        return Err(Diagnostic::new(DiagKind::ReceiverParam, lo, hi));
    }
    if hi - lo >= 3 && crate::tok::word_is(&toks[lo], "_")
        && crate::tok::punct_is(&toks[lo + 1], ':') {
        return Ok(RawParam { pat: PatKind::Wild, ty: Span::new(lo + 2, hi) });
    }
    if hi - lo >= 4 && crate::tok::word_is(&toks[lo], "mut")
        && crate::tok::punct_is(&toks[lo + 2], ':') {
        match &toks[lo + 1] {
            Tok::Word(w) => {
                if !crate::tok::word_is(&toks[lo + 1], "_") {
                    return Ok(RawParam {
                        pat: PatKind::Ident(w.clone()),
                        ty: Span::new(lo + 3, hi),
                    });
                }
            },
            _ => {},
        }
    }
    if hi - lo >= 3 && crate::tok::punct_is(&toks[lo + 1], ':') {
        match &toks[lo] {
            Tok::Word(w) => {
                return Ok(RawParam {
                    pat: PatKind::Ident(w.clone()),
                    ty: Span::new(lo + 2, hi),
                });
            },
            _ => {},
        }
    }
    Err(Diagnostic::new(DiagKind::ExpectedParameter, lo, hi))
}

/// Parses the region between a prototype's parentheses exactly as
/// `region_params` classifies it: parameter chunks separated by commas
/// outside nested groups, with an optional trailing comma.  The first
/// malformed or receiver-style parameter fails the whole prototype, with
/// the failing chunk's range.
pub fn parse_params_region(toks: &Vec<Tok>, lo: usize, hi: usize) -> (r: Result<
    Vec<RawParam>,
    Diagnostic,
>)
    requires
        lo <= hi <= toks.deep_view().len(),
    ensures
        ({
            let t = toks.deep_view();
            match region_params(t, lo as int, hi as int) {
                Ok(ps) => r matches Ok(raws) && raws.deep_view() == ps,
                Err(d0) => r matches Err(d) && d == d0,
            }
        }),
{
    let ghost t = toks.deep_view();
    let ghost whole = region_params(t, lo as int, hi as int);
    let mut raws: Vec<RawParam> = Vec::new();
    let mut cs = lo;
    let mut depth: i128 = 0;
    let mut k = lo;
    proof {
        match whole {
            Ok(rest) => {
                assert(raws.deep_view() + rest =~= rest);
            },
            Err(_) => {},
        }
    }
    while k < hi
        invariant
            lo <= cs <= k <= hi <= toks.deep_view().len(),
            t == toks.deep_view(),
            whole == region_params(t, lo as int, hi as int),
            -((k - lo) as int) <= depth <= (k - lo) as int,
            chunk_len(t, cs as int, hi as int, 0)
                == (k - cs) + chunk_len(t, k as int, hi as int, depth as int),
            match region_params(t, cs as int, hi as int) {
                Ok(rest) => whole == Ok::<Seq<RawParamV>, Diagnostic>(raws.deep_view() + rest),
                Err(d) => whole == Err::<Seq<RawParamV>, Diagnostic>(d),
            },
        decreases hi - k,
    {
        let is_comma = depth == 0 && crate::tok::punct_is(&toks[k], ',');
        if is_comma {
            proof {
                assert(chunk_len(t, k as int, hi as int, 0) == 0);
                assert(cs as int + chunk_len(t, cs as int, hi as int, 0) == k as int);
            }
            match parse_param(toks, cs, k) {
                Ok(rp) => {
                    let ghost dv0 = raws.deep_view();
                    let ghost rv = rp.deep_view();
                    raws.push(rp);
                    proof {
                        assert forall|q: int| 0 <= q <= dv0.len()
                            implies #[trigger] raws.deep_view()[q]
                                == (if q < dv0.len() { dv0[q] } else { rv }) by {
                            assert(raws.deep_view()[q] == raws@[q].deep_view());
                        }
                        let po = param_chunk_result(t.subrange(cs as int, k as int))->Ok_0;
                        assert(rv.ty == Span { lo: (cs as int + po.1) as usize, hi: k });
                        match region_params(t, k as int + 1, hi as int) {
                            Ok(rest2) => {
                                assert(region_params(t, cs as int, hi as int)
                                    == Ok::<Seq<RawParamV>, Diagnostic>(seq![rv] + rest2));
                                assert(dv0 + (seq![rv] + rest2) =~= raws.deep_view() + rest2);
                            },
                            Err(_) => {},
                        }
                    }
                },
                Err(d) => {
                    proof {
                        assert(d == Diagnostic {
                            kind: d.kind,
                            span: Span { lo: cs, hi: k },
                        });
                        assert(region_params(t, cs as int, hi as int)
                            == Err::<Seq<RawParamV>, Diagnostic>(d));
                    }
                    return Err(d);
                },
            }
            cs = k + 1;
        }
        proof {
            if !is_comma {
                assert(chunk_len(t, k as int, hi as int, depth as int)
                    == 1 + chunk_len(t, k as int + 1, hi as int, depth + delta(t[k as int])));
            }
        }
        match &toks[k] {
            Tok::Open(_) => { depth = depth + 1; },
            Tok::Close(_) => { depth = depth - 1; },
            _ => {},
        }
        k = k + 1;
    }
    if cs < hi {
        proof {
            assert(chunk_len(t, hi as int, hi as int, depth as int) == 0);
            assert(cs as int + chunk_len(t, cs as int, hi as int, 0) == hi as int);
        }
        match parse_param(toks, cs, hi) {
            Ok(rp) => {
                let ghost dv0 = raws.deep_view();
                let ghost rv = rp.deep_view();
                raws.push(rp);
                proof {
                    assert forall|q: int| 0 <= q <= dv0.len()
                        implies #[trigger] raws.deep_view()[q]
                            == (if q < dv0.len() { dv0[q] } else { rv }) by {
                        assert(raws.deep_view()[q] == raws@[q].deep_view());
                    }
                    let po = param_chunk_result(t.subrange(cs as int, hi as int))->Ok_0;
                    assert(rv.ty == Span { lo: (cs as int + po.1) as usize, hi: hi });
                    assert(region_params(t, cs as int, hi as int)
                        == Ok::<Seq<RawParamV>, Diagnostic>(seq![rv]));
                    assert(dv0 + seq![rv] =~= raws.deep_view());
                }
            },
            Err(d) => {
                proof {
                    assert(d == Diagnostic {
                        kind: d.kind,
                        span: Span { lo: cs, hi: hi },
                    });
                    assert(region_params(t, cs as int, hi as int)
                        == Err::<Seq<RawParamV>, Diagnostic>(d));
                }
                return Err(d);
            },
        }
    } else {
        proof {
            assert(region_params(t, cs as int, hi as int)
                == Ok::<Seq<RawParamV>, Diagnostic>(Seq::<RawParamV>::empty()));
            assert(raws.deep_view() + Seq::<RawParamV>::empty() =~= raws.deep_view());
        }
    }
    Ok(raws)
}

/// Parses one declaration exactly as `item_result` classifies it: optional
/// attributes, optional visibility, `fn`, the function's name, its
/// parenthesized parameters, and an optional return type, with wildcard
/// parameters renamed positionally in the result.
#[verifier::rlimit(100)]
pub fn parse_item(toks: &Vec<Tok>, lo: usize, hi: usize, abi: &String) -> (r: Result<
    crate::sig::FunctionSignature,
    Diagnostic,
>)
    requires
        lo <= hi <= toks.deep_view().len(),
    ensures
        ({
            let t = toks.deep_view();
            match item_result(t, lo as int, hi as int, abi@) {
                Ok(sv) => r matches Ok(sig) && sig.deep_view() == sv,
                Err(d0) => r matches Err(d) && d == d0,
            }
        }),
{
    let ghost t = toks.deep_view();
    let mut j = lo;
    let mut attrs: Vec<Span> = Vec::new();
    // Attributes: `#` followed by a bracketed group, repeated.
    while j < hi && matches!(&toks[j], Tok::Punct('#'))
        invariant
            lo <= j <= hi <= toks.deep_view().len(),
            t == toks.deep_view(),
            match scan_attrs(t, j as int, hi as int) {
                Ok(rest) => scan_attrs(t, lo as int, hi as int)
                    == Ok::<(Seq<Span>, int), Diagnostic>((attrs@ + rest.0, rest.1)),
                Err(d) => scan_attrs(t, lo as int, hi as int)
                    == Err::<(Seq<Span>, int), Diagnostic>(d),
            },
        decreases hi - j,
    {
        if !(j + 1 < hi && crate::tok::open_is(&toks[j + 1], Delim::Bracket)) {
            proof {
                assert(attr_end(t, j as int, hi as int) is None);
            }
            return Err(Diagnostic::new(DiagKind::ExpectedPrototype, j, hi));
        }
        match find_close(toks, j + 1, hi, Delim::Bracket) {
            Some(c) => {
                proof {
                    assert(attr_end(t, j as int, hi as int) == Some(c as int + 1));
                    let e = c as int + 1;
                    match scan_attrs(t, e, hi as int) {
                        Ok(rest) => {
                            assert(scan_attrs(t, j as int, hi as int)
                                == Ok::<(Seq<Span>, int), Diagnostic>((
                                    seq![Span { lo: j, hi: (c + 1) as usize }] + rest.0,
                                    rest.1,
                                )));
                            assert(attrs@ + (seq![Span { lo: j, hi: (c + 1) as usize }] + rest.0)
                                =~= attrs@.push(Span { lo: j, hi: (c + 1) as usize }) + rest.0);
                        },
                        Err(_) => {},
                    }
                }
                attrs.push(Span::new(j, c + 1));
                j = c + 1;
            },
            None => {
                proof {
                    assert(attr_end(t, j as int, hi as int) is None);
                }
                return Err(Diagnostic::new(DiagKind::ExpectedPrototype, j, hi));
            },
        }
    }
    proof {
        assert(scan_attrs(t, j as int, hi as int)
            == Ok::<(Seq<Span>, int), Diagnostic>((Seq::<Span>::empty(), j as int)));
        assert(attrs@ + Seq::<Span>::empty() =~= attrs@);
        assert(scan_attrs(t, lo as int, hi as int)
            == Ok::<(Seq<Span>, int), Diagnostic>((attrs@, j as int)));
    }
    let ghost j0 = j as int;
    // Visibility: `pub`, optionally with a parenthesized restriction.
    let vis: Option<Span> = if j < hi && crate::tok::word_is(&toks[j], "pub") {
        if j + 1 < hi && crate::tok::open_is(&toks[j + 1], Delim::Paren) {
            match find_close(toks, j + 1, hi, Delim::Paren) {
                Some(c) => {
                    let v = Span::new(j, c + 1);
                    proof {
                        assert(vis_result(t, j0, hi as int)
                            == Ok::<(Option<Span>, int), Diagnostic>((Some(v), c as int + 1)));
                    }
                    j = c + 1;
                    Some(v)
                },
                None => {
                    proof {
                        assert(vis_result(t, j0, hi as int)
                            == Err::<(Option<Span>, int), Diagnostic>(Diagnostic {
                                kind: DiagKind::ExpectedPrototype,
                                span: Span { lo: j, hi: hi },
                            }));
                    }
                    return Err(Diagnostic::new(DiagKind::ExpectedPrototype, j, hi));
                },
            }
        } else {
            let v = Span::new(j, j + 1);
            proof {
                assert(vis_result(t, j0, hi as int)
                    == Ok::<(Option<Span>, int), Diagnostic>((Some(v), j as int + 1)));
            }
            j = j + 1;
            Some(v)
        }
    } else {
        proof {
            assert(vis_result(t, j0, hi as int)
                == Ok::<(Option<Span>, int), Diagnostic>((None, j as int)));
        }
        None
    };
    let ghost j1 = j as int;
    // The prototype proper: `fn name ( ... )` with an optional return type.
    if !(j < hi && crate::tok::word_is(&toks[j], "fn")) {
        return Err(Diagnostic::new(DiagKind::ExpectedPrototype, j, hi));
    }
    j = j + 1;
    let name: String = if j < hi {
        match &toks[j] {
            Tok::Word(w) => w.clone(),
            _ => {
                return Err(Diagnostic::new(DiagKind::ExpectedPrototype, j, hi));
            },
        }
    } else {
        return Err(Diagnostic::new(DiagKind::ExpectedPrototype, j, hi));
    };
    let ghost np = j as int;
    j = j + 1;
    if !(j < hi && crate::tok::open_is(&toks[j], Delim::Paren)) {
        return Err(Diagnostic::new(DiagKind::ExpectedPrototype, j, hi));
    }
    let cp = match find_close(toks, j, hi, Delim::Paren) {
        Some(c) => c,
        None => {
            return Err(Diagnostic::new(DiagKind::ExpectedPrototype, j, hi));
        },
    };
    proof {
        assert(cp as int == j1 + 3 + close_ofs(t, j1 + 3, hi as int, 1, Delim::Paren)->Some_0);
    }
    let raws = match parse_params_region(toks, j + 1, cp) {
        Ok(raws) => raws,
        Err(d) => {
            return Err(d);
        },
    };
    let ret: Option<Span> = if cp + 1 == hi {
        None
    } else {
        if cp + 2 < hi && crate::tok::punct_is(&toks[cp + 1], '-')
            && crate::tok::punct_is(&toks[cp + 2], '>') && cp + 3 < hi {
            Some(Span::new(cp + 3, hi))
        } else {
            return Err(Diagnostic::new(DiagKind::ExpectedPrototype, cp + 1, hi));
        }
    };
    let params = crate::sig::lower_params(&raws);
    let sig = crate::sig::FunctionSignature {
        name,
        attrs,
        vis,
        abi: abi.clone(),
        params,
        ret,
        span: Span::new(lo, hi),
    };
    proof {
        let sv = item_result(t, lo as int, hi as int, abi@)->Ok_0;
        assert(sig.deep_view() == sv);
    }
    Ok(sig)
}

/// The fate of one declaration of a block: a parsed signature, or the
/// diagnostic that rejected it while the rest of the block went on.
#[derive(Clone, Debug)]
pub enum ItemOutcome {
    Accepted(crate::sig::FunctionSignature),
    Rejected(Diagnostic),
}

/// The spec-level image of an item outcome.
pub enum ItemOutcomeV {
    Accepted(crate::sig::FunctionSignatureV),
    Rejected(Diagnostic),
}

impl DeepView for ItemOutcome {
    type V = ItemOutcomeV;

    open spec fn deep_view(&self) -> ItemOutcomeV {
        match self {
            ItemOutcome::Accepted(s) => ItemOutcomeV::Accepted(s.deep_view()),
            ItemOutcome::Rejected(d) => ItemOutcomeV::Rejected(*d),
        }
    }
}

/// Every field an accepted declaration can have comes from its own tokens;
/// in particular the block's calling-convention tag and the declaration's
/// range pass through unchanged.
proof fn lemma_item_ok_fields(t: Seq<TokV>, lo: int, hi: int, abi: Seq<char>)
    requires
        item_result(t, lo, hi, abi) matches Ok(sv),
    ensures
        ({
            let sv = item_result(t, lo, hi, abi)->Ok_0;
            sv.abi == abi && sv.span == Span { lo: lo as usize, hi: hi as usize }
        }),
{
}

/// The outcome of every declaration of a block from the `i`-th on, given
/// the names accepted so far: a declaration that fails `item_result` keeps
/// its diagnostic, a name collision with an earlier accepted declaration
/// is rejected as a duplicate over the declaration's range, anything else
/// is accepted, and an unterminated tail contributes one final rejection.
pub open spec fn block_outcomes_from(
    t: Seq<TokV>,
    abi: Seq<char>,
    i: int,
    taken: Seq<Seq<char>>,
) -> Seq<ItemOutcomeV>
    decreases count_terms(t, t.len() as int) - i,
{
    let nc = count_terms(t, t.len() as int);
    if i < 0 || i >= nc {
        if tail_start(t, t.len() as int) < t.len() {
            seq![ItemOutcomeV::Rejected(Diagnostic {
                kind: DiagKind::MissingTerminator,
                span: Span {
                    lo: tail_start(t, t.len() as int) as usize,
                    hi: t.len() as usize,
                },
            })]
        } else {
            Seq::<ItemOutcomeV>::empty()
        }
    } else {
        let clo = chunk_lo(t, i);
        let chi = chunk_hi(t, i);
        match item_result(t, clo, chi, abi) {
            Err(d) => seq![ItemOutcomeV::Rejected(d)]
                + block_outcomes_from(t, abi, i + 1, taken),
            Ok(sv) => if taken.contains(sv.name) {
                seq![ItemOutcomeV::Rejected(Diagnostic {
                    kind: DiagKind::DuplicateName,
                    span: Span { lo: clo as usize, hi: chi as usize },
                })] + block_outcomes_from(t, abi, i + 1, taken)
            } else {
                seq![ItemOutcomeV::Accepted(sv)]
                    + block_outcomes_from(t, abi, i + 1, taken.push(sv.name))
            },
        }
    }
}

/// The outcome of every declaration of a block, in declaration order.
pub open spec fn block_outcomes(t: Seq<TokV>, abi: Seq<char>) -> Seq<ItemOutcomeV> {
    block_outcomes_from(t, abi, 0, Seq::<Seq<char>>::empty())
}

/// True if an accepted declaration named `name` is already among `outs`.
fn name_taken(outs: &Vec<ItemOutcome>, name: &String) -> (r: bool)
    ensures
        r == exists|k: int| {
            &&& 0 <= k < outs.deep_view().len()
            &&& (#[trigger] outs.deep_view()[k]) matches ItemOutcomeV::Accepted(s)
                && s.name == name@
        },
{
    let mut k: usize = 0;
    while k < outs.len()
        invariant
            k <= outs.len(),
            forall|q: int| 0 <= q < k
                ==> !((#[trigger] outs.deep_view()[q]) matches ItemOutcomeV::Accepted(s)
                        && s.name == name@),
        decreases outs.len() - k,
    {
        match &outs[k] {
            ItemOutcome::Accepted(sig) => {
                if sig.name == *name {
                    proof {
                        assert(outs.deep_view()[k as int] == outs@[k as int].deep_view());
                    }
                    return true;
                }
            },
            ItemOutcome::Rejected(_) => {},
        }
        proof {
            assert(outs.deep_view()[k as int] == outs@[k as int].deep_view());
        }
        k = k + 1;
    }
    false
}

/// Parses a whole block body under the calling-convention tag `abi`,
/// exactly as `block_outcomes` prescribes: every `;`-terminated
/// declaration yields one outcome, in order; an unterminated tail yields
/// one more, rejected; a declaration whose name repeats an earlier
/// accepted one is rejected as a duplicate, so the accepted names — the
/// block's public symbols — are pairwise distinct.
pub fn parse_block(abi: &String, toks: &Vec<Tok>) -> (outs: Vec<ItemOutcome>)
    ensures
        outs.deep_view() == block_outcomes(toks.deep_view(), abi@),
        ({
            let t = toks.deep_view();
            let n = t.len() as int;
            let ov = outs.deep_view();
            &&& ov.len() == count_terms(t, n) + (if tail_start(t, n) < n { 1int } else { 0int })
            &&& forall|i: int, j: int| 0 <= i < j < ov.len()
                ==> ((#[trigger] ov[i]) matches ItemOutcomeV::Accepted(si)
                    ==> ((#[trigger] ov[j]) matches ItemOutcomeV::Accepted(sj)
                        ==> si.name != sj.name))
            &&& forall|i: int| 0 <= i < ov.len()
                ==> ((#[trigger] ov[i]) matches ItemOutcomeV::Accepted(s) ==> s.abi == abi@)
        }),
{
    let ghost t = toks.deep_view();
    let (chunks, rest) = split_items(toks);
    let n = toks.len();
    let ghost nc = count_terms(t, n as int);
    let mut outs: Vec<ItemOutcome> = Vec::new();
    let ghost mut taken: Seq<Seq<char>> = Seq::<Seq<char>>::empty();
    let mut i: usize = 0;
    proof {
        assert(outs.deep_view() + block_outcomes_from(t, abi@, 0, taken)
            =~= block_outcomes_from(t, abi@, 0, taken));
    }
    while i < chunks.len()
        invariant
            i <= chunks@.len(),
            chunks@.len() == nc,
            nc == count_terms(t, n as int),
            n == toks.deep_view().len(),
            t == toks.deep_view(),
            forall|q: int| 0 <= q < chunks@.len()
                ==> (#[trigger] chunks@[q]).lo <= chunks@[q].hi < n
                    && chunks@[q].lo == chunk_lo(t, q)
                    && chunks@[q].hi == chunk_hi(t, q),
            outs.deep_view().len() == i,
            outs.deep_view() + block_outcomes_from(t, abi@, i as int, taken)
                == block_outcomes(t, abi@),
            forall|nm: Seq<char>| #[trigger] taken.contains(nm) <==> exists|q: int| {
                &&& 0 <= q < outs.deep_view().len()
                &&& (#[trigger] outs.deep_view()[q]) matches ItemOutcomeV::Accepted(s)
                    && s.name == nm
            },
            forall|p: int, q: int| 0 <= p < q < outs.deep_view().len()
                ==> ((#[trigger] outs.deep_view()[p]) matches ItemOutcomeV::Accepted(sp)
                    ==> ((#[trigger] outs.deep_view()[q]) matches ItemOutcomeV::Accepted(sq)
                        ==> sp.name != sq.name)),
            forall|q: int| 0 <= q < outs.deep_view().len()
                ==> ((#[trigger] outs.deep_view()[q]) matches ItemOutcomeV::Accepted(s)
                    ==> s.abi == abi@),
        decreases chunks.len() - i,
    {
        let sp = chunks[i];
        let ghost taken0 = taken;
        let out = match parse_item(toks, sp.lo, sp.hi, abi) {
            Ok(sig) => {
                proof {
                    lemma_item_ok_fields(t, sp.lo as int, sp.hi as int, abi@);
                }
                if name_taken(&outs, &sig.name) {
                    ItemOutcome::Rejected(Diagnostic::new(DiagKind::DuplicateName, sp.lo, sp.hi))
                } else {
                    proof {
                        taken = taken.push(sig.name@);
                        assert forall|x: Seq<char>| #[trigger] taken.contains(x)
                            <==> (taken0.contains(x) || x == sig.name@) by {
                            if taken.contains(x) {
                                let q = choose|q: int| 0 <= q < taken.len() && taken[q] == x;
                                if q < taken0.len() {
                                    assert(taken0[q] == x);
                                }
                            }
                            if taken0.contains(x) {
                                let q = choose|q: int|
                                    0 <= q < taken0.len() && taken0[q] == x;
                                assert(taken[q] == x);
                            }
                            if x == sig.name@ {
                                assert(taken[taken0.len() as int] == x);
                            }
                        }
                    }
                    ItemOutcome::Accepted(sig)
                }
            },
            Err(d) => ItemOutcome::Rejected(d),
        };
        let ghost dv0 = outs.deep_view();
        let ghost xv = out.deep_view();
        outs.push(out);
        proof {
            assert forall|q: int| 0 <= q <= dv0.len()
                implies #[trigger] outs.deep_view()[q]
                    == (if q < dv0.len() { dv0[q] } else { xv }) by {
                assert(outs.deep_view()[q] == outs@[q].deep_view());
            }
            assert(dv0 + (seq![xv] + block_outcomes_from(t, abi@, i as int + 1, taken))
                =~= outs.deep_view() + block_outcomes_from(t, abi@, i as int + 1, taken));
            assert(block_outcomes_from(t, abi@, i as int, taken0)
                == seq![xv] + block_outcomes_from(t, abi@, i as int + 1, taken));
            assert forall|nm: Seq<char>| #[trigger] taken.contains(nm) <==> exists|q: int| {
                &&& 0 <= q < outs.deep_view().len()
                &&& (#[trigger] outs.deep_view()[q]) matches ItemOutcomeV::Accepted(s)
                    && s.name == nm
            } by {
                if taken.contains(nm) {
                    if taken0.contains(nm) {
                        let q = choose|q: int| {
                            &&& 0 <= q < dv0.len()
                            &&& (#[trigger] dv0[q]) matches ItemOutcomeV::Accepted(s)
                                && s.name == nm
                        };
                        assert(outs.deep_view()[q] == dv0[q]);
                    } else {
                        assert(outs.deep_view()[dv0.len() as int] == xv);
                    }
                }
            }
        }
        i = i + 1;
    }
    proof {
        assert(i as int == nc);
    }
    if rest < n {
        let ghost dv0 = outs.deep_view();
        let out = ItemOutcome::Rejected(Diagnostic::new(DiagKind::MissingTerminator, rest, n));
        let ghost xv = out.deep_view();
        outs.push(out);
        proof {
            assert forall|q: int| 0 <= q <= dv0.len()
                implies #[trigger] outs.deep_view()[q]
                    == (if q < dv0.len() { dv0[q] } else { xv }) by {
                assert(outs.deep_view()[q] == outs@[q].deep_view());
            }
            assert(block_outcomes_from(t, abi@, nc, taken) =~= seq![xv]);
            assert(dv0 + seq![xv] =~= outs.deep_view());
        }
    } else {
        proof {
            assert(block_outcomes_from(t, abi@, nc, taken)
                =~= Seq::<ItemOutcomeV>::empty());
            assert(outs.deep_view() + Seq::<ItemOutcomeV>::empty() =~= outs.deep_view());
        }
    }
    outs
}


} // verus!
