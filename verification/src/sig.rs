//! Function signatures and parameter lowering.
//!
//! A parsed prototype carries its parameters as raw patterns; lowering
//! renames wildcard parameters positionally (`p0`, `p1`, ... by 0-based
//! declaration order) and keeps declared names verbatim.  Parameter order is
//! preserved exactly: it defines both the trampoline signature and the
//! call-site argument order.  Types, attributes and visibility are opaque
//! token ranges into the declaration block's token sequence.

use vstd::prelude::*;
use crate::diag::Span;
use crate::render::dec_seq;

verus! {

/// The pattern of one declared parameter, as written.
#[derive(Clone, Debug)]
pub enum PatKind {
    /// The wildcard pattern: the declaration gives the parameter no name.
    Wild,
    /// A declared parameter name.
    Ident(String),
}

/// The spec-level image of a parameter pattern.
pub enum PatKindV {
    Wild,
    Ident(Seq<char>),
}

impl DeepView for PatKind {
    type V = PatKindV;

    open spec fn deep_view(&self) -> PatKindV {
        match self {
            PatKind::Wild => PatKindV::Wild,
            PatKind::Ident(s) => PatKindV::Ident(s@),
        }
    }
}

/// One parameter as parsed: its pattern and the token range of its type.
#[derive(Clone, Debug)]
pub struct RawParam {
    pub pat: PatKind,
    pub ty: Span,
}

/// The spec-level image of a raw parameter.
pub struct RawParamV {
    pub pat: PatKindV,
    pub ty: Span,
}

impl DeepView for RawParam {
    type V = RawParamV;

    open spec fn deep_view(&self) -> RawParamV {
        RawParamV { pat: self.pat.deep_view(), ty: self.ty }
    }
}

/// One lowered parameter: its final name and the token range of its type.
#[derive(Clone, Debug)]
pub struct Param {
    pub name: String,
    pub ty: Span,
}

/// The spec-level image of a lowered parameter.
pub struct ParamV {
    pub name: Seq<char>,
    pub ty: Span,
}

impl DeepView for Param {
    type V = ParamV;

    open spec fn deep_view(&self) -> ParamV {
        ParamV { name: self.name@, ty: self.ty }
    }
}

/// A parsed function prototype.  Attributes, visibility and types are
/// opaque token ranges into the block's token sequence, propagated unchanged
/// onto the generated public symbol.
#[derive(Clone, Debug)]
pub struct FunctionSignature {
    pub name: String,
    pub attrs: Vec<Span>,
    pub vis: Option<Span>,
    /// The calling-convention tag the whole block shares.
    pub abi: String,
    pub params: Vec<Param>,
    /// The token range of the return type; `None` for the unit return.
    pub ret: Option<Span>,
    /// The token range of the whole declaration, for diagnostics.
    pub span: Span,
}

/// The spec-level image of a signature.
pub struct FunctionSignatureV {
    pub name: Seq<char>,
    pub attrs: Seq<Span>,
    pub vis: Option<Span>,
    pub abi: Seq<char>,
    pub params: Seq<ParamV>,
    pub ret: Option<Span>,
    pub span: Span,
}

impl DeepView for FunctionSignature {
    type V = FunctionSignatureV;

    open spec fn deep_view(&self) -> FunctionSignatureV {
        FunctionSignatureV {
            name: self.name@,
            attrs: self.attrs@,
            vis: self.vis,
            abi: self.abi@,
            params: self.params.deep_view(),
            ret: self.ret,
            span: self.span,
        }
    }
}

/// The synthesized name of the wildcard parameter at 0-based position `i`.
pub open spec fn positional_name(i: int) -> Seq<char> {
    "p"@ + dec_seq(i)
}

/// The final name of a parameter: wildcards are renamed positionally,
/// declared names are kept verbatim.
pub open spec fn lowered_name(pat: PatKindV, i: int) -> Seq<char> {
    match pat {
        PatKindV::Wild => positional_name(i),
        PatKindV::Ident(nm) => nm,
    }
}

/// The lowered image of a whole raw parameter list: positional renaming
/// applied to each parameter, order and types untouched.
pub open spec fn lowered_params(ps: Seq<RawParamV>) -> Seq<ParamV> {
    Seq::new(ps.len(), |i: int| ParamV { name: lowered_name(ps[i].pat, i), ty: ps[i].ty })
}

/// Renders the positional name `p` followed by `i` in decimal.
pub fn positional(i: usize) -> (r: String)
    ensures
        r@ == positional_name(i as int),
{
    let mut s = "p".to_owned();
    crate::render::push_dec(&mut s, i as u64);
    s
}

/// Positional renaming: parameter `i` keeps its declared name, or becomes
/// `p{i}` when the declaration wrote a wildcard.  Order and types are
/// preserved exactly.
pub fn lower_params(raw: &Vec<RawParam>) -> (ps: Vec<Param>)
    ensures
        ps.deep_view() == lowered_params(raw.deep_view()),
        ps.deep_view().len() == raw.deep_view().len(),
        forall|i: int| 0 <= i < raw.deep_view().len()
            ==> (#[trigger] ps.deep_view()[i]).name
                    == lowered_name(raw.deep_view()[i].pat, i)
                && ps.deep_view()[i].ty == raw.deep_view()[i].ty,
{
    let mut ps: Vec<Param> = Vec::new();
    let mut i: usize = 0;
    while i < raw.len()
        invariant
            i <= raw.len(),
            ps.deep_view().len() == i,
            forall|k: int| 0 <= k < i
                ==> (#[trigger] ps.deep_view()[k]).name
                        == lowered_name(raw.deep_view()[k].pat, k)
                    && ps.deep_view()[k].ty == raw.deep_view()[k].ty,
        decreases raw.len() - i,
    {
        let name: String = match &raw[i].pat {
            PatKind::Wild => positional(i),
            PatKind::Ident(nm) => nm.clone(),
        };
        let ghost dv0 = ps.deep_view();
        let p = Param { name, ty: raw[i].ty };
        let ghost pv = p.deep_view();
        ps.push(p);
        proof {
            assert forall|k: int| 0 <= k <= i implies #[trigger] ps.deep_view()[k]
                == (if k < i { dv0[k] } else { pv }) by {
                assert(ps.deep_view()[k] == ps@[k].deep_view());
            }
        }
        i = i + 1;
    }
    proof {
        assert(ps.deep_view() =~= lowered_params(raw.deep_view()));
    }
    ps
}

} // verus!
