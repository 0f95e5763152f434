//! Verified core of a source-to-source transformer that binds blocks of
//! foreign function prototypes to a native library at run time.
//!
//! Given an annotation describing a binding strategy and a block of
//! prototypes sharing one calling convention, the library produces, per
//! prototype, a cache-cell/trampoline pair implementing lazy, at-most-once
//! symbol resolution.  Inputs arrive as flat token sequences; the
//! surrounding front end turns source text into tokens and renders the
//! produced units back into target syntax.

use vstd::prelude::*;

pub mod annot;
pub mod cache;
pub mod decl;
pub mod diag;
pub mod idalloc;
pub mod link;
pub mod render;
pub mod sig;
pub mod synth;
pub mod tok;

verus! {

/// Everything the transformation of one block produces: the strategy the
/// annotation resolved to, and one outcome per declaration.
#[derive(Debug)]
pub struct Expansion {
    pub strategy: link::LinkType,
    pub units: Vec<synth::UnitOutcome>,
}

/// Transforms one annotated block: parses the annotation, parses the
/// declarations under the block's calling-convention tag `abi`, and
/// synthesizes a cache-cell/trampoline pair per accepted declaration.
///
/// A malformed annotation aborts the whole transformation — the strategy is
/// needed by every function — while a malformed declaration is isolated to
/// its own outcome.  On success: the strategy is the exact image of the
/// annotation; every `;`-terminated declaration has exactly one outcome, in
/// order, matching `block_outcomes` declaration by declaration, plus one
/// rejected outcome for an unterminated tail.  Success is owed: a
/// well-formed prototype — one `item_result` accepts, with a fresh name and
/// its lifecycle parameter in range — must become a unit, which keeps the
/// declaration's signature exactly, names its cache cell after the
/// function, carries the injection `injection_for` prescribes, and holds a
/// trampoline id unique within the whole compilation (ids are drawn from
/// `alloc`'s window and never repeat across runs).
pub fn transform(
    annot_toks: &Vec<tok::Tok>,
    abi: &String,
    body_toks: &Vec<tok::Tok>,
    alloc: &mut idalloc::IdentifierAllocator,
) -> (r: Result<Expansion, diag::Diagnostic>)
    requires
        old(alloc).count + body_toks.deep_view().len() + 1 <= u64::MAX,
    ensures
        ({
            let at = annot_toks.deep_view();
            let t = body_toks.deep_view();
            let n = t.len() as int;
            match r {
                Err(d) => {
                    &&& annot::annotation_result_matches(at, Err(d))
                    &&& *final(alloc) == *old(alloc)
                },
                Ok(exp) => {
                    let uv = exp.units.deep_view();
                    &&& annot::strategy_matches(at, exp.strategy.deep_view())
                    &&& uv.len() == decl::count_terms(t, n)
                        + (if decl::tail_start(t, n) < n { 1int } else { 0int })
                    &&& uv.len() == decl::block_outcomes(t, abi@).len()
                    &&& forall|i: int| 0 <= i < uv.len()
                        ==> synth::unit_matches_item(
                            decl::block_outcomes(t, abi@)[i],
                            #[trigger] uv[i],
                            exp.strategy.deep_view(),
                        )
                    &&& forall|i: int| 0 <= i < uv.len()
                        ==> ((#[trigger] uv[i]) matches synth::UnitOutcomeV::Unit(u) ==> {
                            &&& u.strategy == exp.strategy.deep_view()
                            &&& u.signature.abi == abi@
                            &&& u.cache_cell_id == u.signature.name
                            &&& u.trampoline_name
                                == render::trampoline_name_spec(u.trampoline_id as int)
                            &&& u.injection
                                == synth::injection_for(exp.strategy.deep_view(), u.signature.name)
                            &&& (u.injection matches Some(inj)
                                ==> inj.param_index < u.signature.params.len())
                            &&& old(alloc).count <= u.trampoline_id < final(alloc).count
                        })
                    &&& forall|i: int, j: int| 0 <= i < j < uv.len()
                        ==> ((#[trigger] uv[i]) matches synth::UnitOutcomeV::Unit(a)
                            ==> ((#[trigger] uv[j]) matches synth::UnitOutcomeV::Unit(b)
                                ==> a.trampoline_id != b.trampoline_id
                                    && a.cache_cell_id != b.cache_cell_id))
                    &&& old(alloc).count <= final(alloc).count
                        && final(alloc).count <= old(alloc).count + uv.len()
                },
            }
        }),
{
    let strategy = match annot::parse_annotation(annot_toks) {
        Ok(l) => l,
        Err(d) => {
            return Err(d);
        },
    };
    let items = decl::parse_block(abi, body_toks);
    let ghost idv = items.deep_view();
    proof {
        decl::lemma_count_terms_le(body_toks.deep_view(), body_toks.deep_view().len() as int);
    }
    let units = synth::synthesize_block(&strategy, items, alloc);
    proof {
        let sv = strategy.deep_view();
        let uv = units.deep_view();
        assert forall|i: int, j: int| 0 <= i < j < uv.len()
            implies ((#[trigger] uv[i]) matches synth::UnitOutcomeV::Unit(a)
                ==> ((#[trigger] uv[j]) matches synth::UnitOutcomeV::Unit(b)
                    ==> a.trampoline_id != b.trampoline_id
                        && a.cache_cell_id != b.cache_cell_id)) by {
            if uv[i] matches synth::UnitOutcomeV::Unit(a) {
                if uv[j] matches synth::UnitOutcomeV::Unit(b) {
                    assert(synth::unit_matches_item(idv[i], uv[i], sv));
                    assert(synth::unit_matches_item(idv[j], uv[j], sv));
                    assert(idv[i] matches decl::ItemOutcomeV::Accepted(si)
                        ==> (idv[j] matches decl::ItemOutcomeV::Accepted(sj)
                            ==> si.name != sj.name));
                }
            }
        }
        assert forall|i: int| 0 <= i < uv.len()
            implies ((#[trigger] uv[i]) matches synth::UnitOutcomeV::Unit(u)
                ==> u.signature.abi == abi@) by {
            if uv[i] matches synth::UnitOutcomeV::Unit(u) {
                assert(synth::unit_matches_item(idv[i], uv[i], sv));
            }
        }
    }
    Ok(Expansion { strategy, units })
}

} // verus!
