//! The wrapper synthesizer: one cache-cell/trampoline pair per accepted
//! declaration.
//!
//! Each generated unit's public symbol is the cache cell, named after the
//! declared function; the trampoline carries a globally unique id drawn from
//! the allocator, so no two units of one compilation collide even when they
//! share a function name.  Under the primary graphics API strategy the four
//! object-lifecycle entry points additionally get a bookkeeping injection,
//! keyed to a fixed parameter position of each.

use vstd::prelude::*;
use crate::link::{LinkType, LinkTypeV, WellKnownApi};
use crate::sig::FunctionSignature;
use crate::diag::{Diagnostic, DiagKind};
use crate::decl::{ItemOutcome, ItemOutcomeV};
use crate::idalloc::IdentifierAllocator;
use crate::render::trampoline_name_spec;

verus! {

/// The lifecycle bookkeeping a recognized trampoline performs after the
/// real call.
#[derive(Clone, Copy, PartialEq, Eq, Structural, Debug)]
pub enum LifecycleAction {
    RegisterInstance,
    DeregisterInstance,
    RegisterDevice,
    DeregisterDevice,
}

/// A bookkeeping injection: what to record, and which parameter position
/// carries the handle it reads.
#[derive(Clone, Copy, PartialEq, Eq, Structural, Debug)]
pub struct Injection {
    pub action: LifecycleAction,
    pub param_index: usize,
}

/// Which injection a function name earns: only the four lifecycle entry
/// points of the primary graphics API, and only under its well-known
/// strategy — a `Named` binding of the same function gets none.
pub open spec fn injection_for(strategy: LinkTypeV, name: Seq<char>) -> Option<Injection> {
    if strategy != LinkTypeV::WellKnown(WellKnownApi::PrimaryGraphicsApi) {
        None
    } else if name == "vkCreateInstance"@ {
        Some(Injection { action: LifecycleAction::RegisterInstance, param_index: 2 })
    } else if name == "vkDestroyInstance"@ {
        Some(Injection { action: LifecycleAction::DeregisterInstance, param_index: 0 })
    } else if name == "vkCreateDevice"@ {
        Some(Injection { action: LifecycleAction::RegisterDevice, param_index: 3 })
    } else if name == "vkDestroyDevice"@ {
        Some(Injection { action: LifecycleAction::DeregisterDevice, param_index: 0 })
    } else {
        None
    }
}

/// One generated unit: the cache cell the callers invoke (the block's
/// public symbol, named after the function), and the hidden trampoline that
/// resolves the symbol on first call.
#[derive(Clone, Debug)]
pub struct GeneratedUnit {
    /// The public symbol: the cache cell carries the function's own name.
    pub cache_cell_id: String,
    /// The unique id of this unit's trampoline within the compilation.
    pub trampoline_id: u64,
    /// The rendered trampoline name, derived from the id.
    pub trampoline_name: String,
    pub signature: FunctionSignature,
    pub strategy: LinkType,
    /// The lifecycle bookkeeping spliced after the real call, if any.
    pub injection: Option<Injection>,
}

/// The spec-level image of a generated unit.
pub struct GeneratedUnitV {
    pub cache_cell_id: Seq<char>,
    pub trampoline_id: u64,
    pub trampoline_name: Seq<char>,
    pub signature: crate::sig::FunctionSignatureV,
    pub strategy: LinkTypeV,
    pub injection: Option<Injection>,
}

impl DeepView for GeneratedUnit {
    type V = GeneratedUnitV;

    open spec fn deep_view(&self) -> GeneratedUnitV {
        GeneratedUnitV {
            cache_cell_id: self.cache_cell_id@,
            trampoline_id: self.trampoline_id,
            trampoline_name: self.trampoline_name@,
            signature: self.signature.deep_view(),
            strategy: self.strategy.deep_view(),
            injection: self.injection,
        }
    }
}

/// Synthesizes the unit for one accepted declaration.  The signature,
/// visibility, attributes and calling convention pass through unchanged;
/// the trampoline id is freshly drawn; the injection is exactly what
/// `injection_for` prescribes, and a recognized lifecycle function that
/// lacks the parameter its bookkeeping must read is rejected instead of
/// read out of range.
pub fn synthesize_unit(
    strategy: &LinkType,
    sig: FunctionSignature,
    alloc: &mut IdentifierAllocator,
) -> (r: Result<GeneratedUnit, Diagnostic>)
    requires
        old(alloc).count < u64::MAX,
    ensures
        match r {
            Ok(u) => {
                let uv = u.deep_view();
                &&& uv.signature == sig.deep_view()
                &&& uv.cache_cell_id == sig.deep_view().name
                &&& uv.strategy == strategy.deep_view()
                &&& uv.trampoline_id == old(alloc).count
                &&& uv.trampoline_name == trampoline_name_spec(old(alloc).count as int)
                &&& uv.injection == injection_for(strategy.deep_view(), sig.deep_view().name)
                &&& (uv.injection matches Some(inj)
                    ==> inj.param_index < sig.deep_view().params.len())
                &&& final(alloc).count == old(alloc).count + 1
            },
            Err(d) => {
                &&& d.kind == DiagKind::LifecycleArity
                &&& d.span == sig.deep_view().span
                &&& injection_for(strategy.deep_view(), sig.deep_view().name) matches Some(inj)
                    && inj.param_index >= sig.deep_view().params.len()
                &&& *final(alloc) == *old(alloc)
            },
        },
{
    let injection: Option<Injection> = if strategy.is_primary() {
        if sig.name == "vkCreateInstance".to_owned() {
            Some(Injection { action: LifecycleAction::RegisterInstance, param_index: 2 })
        } else if sig.name == "vkDestroyInstance".to_owned() {
            Some(Injection { action: LifecycleAction::DeregisterInstance, param_index: 0 })
        } else if sig.name == "vkCreateDevice".to_owned() {
            Some(Injection { action: LifecycleAction::RegisterDevice, param_index: 3 })
        } else if sig.name == "vkDestroyDevice".to_owned() {
            Some(Injection { action: LifecycleAction::DeregisterDevice, param_index: 0 })
        } else {
            None
        }
    } else {
        None
    };
    match &injection {
        Some(inj) => {
            if inj.param_index >= sig.params.len() {
                return Err(Diagnostic::new(DiagKind::LifecycleArity, sig.span.lo, sig.span.hi));
            }
        },
        None => {},
    }
    let id = alloc.next();
    let trampoline_name = crate::render::trampoline_name(id);
    Ok(GeneratedUnit {
        cache_cell_id: sig.name.clone(),
        trampoline_id: id,
        trampoline_name,
        signature: sig,
        strategy: strategy.clone(),
        injection,
    })
}

/// Special-case injection is strategy-gated: a function named exactly
/// `vkCreateInstance` earns a registration injection reading parameter
/// index 2 under the primary well-known strategy, and none under any other
/// strategy.  `synthesize_unit` splices the injection only when the
/// declaration has more than two parameters; with fewer it rejects the
/// declaration instead of reading out of range.
pub proof fn lemma_create_instance_injection(strategy: LinkTypeV)
    ensures
        injection_for(
            LinkTypeV::WellKnown(WellKnownApi::PrimaryGraphicsApi),
            "vkCreateInstance"@,
        ) == Some(Injection { action: LifecycleAction::RegisterInstance, param_index: 2 }),
        strategy != LinkTypeV::WellKnown(WellKnownApi::PrimaryGraphicsApi)
            ==> injection_for(strategy, "vkCreateInstance"@) is None,
{
}

/// The fate of one declaration after synthesis: a generated unit, or the
/// diagnostic that skipped it.
#[derive(Clone, Debug)]
pub enum UnitOutcome {
    Unit(GeneratedUnit),
    Skipped(Diagnostic),
}

/// The spec-level image of a unit outcome.
pub enum UnitOutcomeV {
    Unit(GeneratedUnitV),
    Skipped(Diagnostic),
}

impl DeepView for UnitOutcome {
    type V = UnitOutcomeV;

    open spec fn deep_view(&self) -> UnitOutcomeV {
        match self {
            UnitOutcome::Unit(u) => UnitOutcomeV::Unit(u.deep_view()),
            UnitOutcome::Skipped(d) => UnitOutcomeV::Skipped(*d),
        }
    }
}

/// What block synthesis promises for each declaration's outcome: rejected
/// declarations stay rejected with the same diagnostic, and each accepted
/// one becomes a unit that preserves its signature, or a lifecycle-arity
/// rejection.
pub open spec fn unit_matches_item(
    ov: ItemOutcomeV,
    uv: UnitOutcomeV,
    strategy: LinkTypeV,
) -> bool {
    match ov {
        ItemOutcomeV::Rejected(d) => uv == UnitOutcomeV::Skipped(d),
        ItemOutcomeV::Accepted(s) => match uv {
            UnitOutcomeV::Unit(u) => {
                &&& u.signature == s
                &&& u.cache_cell_id == s.name
                &&& u.strategy == strategy
                &&& u.trampoline_name == trampoline_name_spec(u.trampoline_id as int)
                &&& u.injection == injection_for(strategy, s.name)
                &&& (u.injection matches Some(inj) ==> inj.param_index < s.params.len())
            },
            UnitOutcomeV::Skipped(d) => {
                &&& d.kind == DiagKind::LifecycleArity
                &&& d.span == s.span
                &&& injection_for(strategy, s.name) matches Some(inj)
                    && inj.param_index >= s.params.len()
            },
        },
    }
}

/// Synthesizes a whole block: one outcome per declaration, in order.  All
/// generated trampoline ids are fresh — drawn from the allocator's current
/// window — and pairwise distinct, even across repeated runs within one
/// compilation.
pub fn synthesize_block(
    strategy: &LinkType,
    items: Vec<ItemOutcome>,
    alloc: &mut IdentifierAllocator,
) -> (units: Vec<UnitOutcome>)
    requires
        old(alloc).count + items.deep_view().len() <= u64::MAX,
    ensures
        units.deep_view().len() == items.deep_view().len(),
        forall|i: int| 0 <= i < items.deep_view().len()
            ==> unit_matches_item(
                items.deep_view()[i],
                #[trigger] units.deep_view()[i],
                strategy.deep_view(),
            ),
        forall|i: int| 0 <= i < units.deep_view().len()
            ==> ((#[trigger] units.deep_view()[i]) matches UnitOutcomeV::Unit(u)
                ==> old(alloc).count <= u.trampoline_id < final(alloc).count),
        forall|i: int, j: int| 0 <= i < j < units.deep_view().len()
            ==> ((#[trigger] units.deep_view()[i]) matches UnitOutcomeV::Unit(a)
                ==> ((#[trigger] units.deep_view()[j]) matches UnitOutcomeV::Unit(b)
                    ==> a.trampoline_id != b.trampoline_id)),
        old(alloc).count <= final(alloc).count,
        final(alloc).count <= old(alloc).count + items.deep_view().len(),
{
    let ghost iv = items.deep_view();
    let ghost c0 = alloc.count;
    let mut units: Vec<UnitOutcome> = Vec::new();
    let mut i: usize = 0;
    while i < items.len()
        invariant
            i <= items.len(),
            iv == items.deep_view(),
            iv.len() == items.len(),
            c0 + iv.len() <= u64::MAX,
            c0 <= alloc.count <= c0 + i,
            units.deep_view().len() == i,
            forall|k: int| 0 <= k < i
                ==> unit_matches_item(
                    iv[k],
                    #[trigger] units.deep_view()[k],
                    strategy.deep_view(),
                ),
            forall|k: int| 0 <= k < i
                ==> ((#[trigger] units.deep_view()[k]) matches UnitOutcomeV::Unit(u)
                    ==> c0 <= u.trampoline_id < alloc.count),
            forall|p: int, q: int| 0 <= p < q < i
                ==> ((#[trigger] units.deep_view()[p]) matches UnitOutcomeV::Unit(a)
                    ==> ((#[trigger] units.deep_view()[q]) matches UnitOutcomeV::Unit(b)
                        ==> a.trampoline_id != b.trampoline_id)),
        decreases items.len() - i,
    {
        let out = match take_item(&items, i) {
            ItemOutcome::Accepted(sig) => {
                match synthesize_unit(strategy, sig, alloc) {
                    Ok(u) => UnitOutcome::Unit(u),
                    Err(d) => UnitOutcome::Skipped(d),
                }
            },
            ItemOutcome::Rejected(d) => UnitOutcome::Skipped(d),
        };
        let ghost dv0 = units.deep_view();
        let ghost xv = out.deep_view();
        units.push(out);
        proof {
            assert forall|q: int| 0 <= q <= dv0.len()
                implies #[trigger] units.deep_view()[q]
                    == (if q < dv0.len() { dv0[q] } else { xv }) by {
                assert(units.deep_view()[q] == units@[q].deep_view());
            }
        }
        i = i + 1;
    }
    units
}

/// Reads the declaration at position `i` out of the list, preserving its
/// image.
fn take_item(items: &Vec<ItemOutcome>, i: usize) -> (out: ItemOutcome)
    requires
        i < items.deep_view().len(),
    ensures
        out.deep_view() == items.deep_view()[i as int],
{
    let r = match &items[i] {
        ItemOutcome::Accepted(sig) => ItemOutcome::Accepted(clone_sig(sig)),
        ItemOutcome::Rejected(d) => ItemOutcome::Rejected(*d),
    };
    proof {
        assert(items.deep_view()[i as int] == items@[i as int].deep_view());
    }
    r
}

/// Clones a parsed signature, preserving its image.
fn clone_sig(sig: &FunctionSignature) -> (r: FunctionSignature)
    ensures
        r.deep_view() == sig.deep_view(),
{
    let mut params: Vec<crate::sig::Param> = Vec::new();
    let mut i: usize = 0;
    while i < sig.params.len()
        invariant
            i <= sig.params.len(),
            params.deep_view().len() == i,
            forall|k: int| 0 <= k < i
                ==> (#[trigger] params.deep_view()[k]) == sig.params.deep_view()[k],
        decreases sig.params.len() - i,
    {
        let ghost dv0 = params.deep_view();
        let p = crate::sig::Param { name: sig.params[i].name.clone(), ty: sig.params[i].ty };
        params.push(p);
        proof {
            assert forall|k: int| 0 <= k <= dv0.len()
                implies #[trigger] params.deep_view()[k]
                    == (if k < dv0.len() { dv0[k] } else { sig.params.deep_view()[i as int] }) by {
                assert(params.deep_view()[k] == params@[k].deep_view());
            }
        }
        i = i + 1;
    }
    let mut attrs: Vec<crate::diag::Span> = Vec::new();
    let mut a: usize = 0;
    while a < sig.attrs.len()
        invariant
            a <= sig.attrs.len(),
            attrs@.len() == a,
            forall|k: int| 0 <= k < a ==> (#[trigger] attrs@[k]) == sig.attrs@[k],
        decreases sig.attrs.len() - a,
    {
        attrs.push(sig.attrs[a]);
        a = a + 1;
    }
    let r = FunctionSignature {
        name: sig.name.clone(),
        attrs,
        vis: sig.vis,
        abi: sig.abi.clone(),
        params,
        ret: sig.ret,
        span: sig.span,
    };
    proof {
        assert(r.deep_view().params =~= sig.deep_view().params);
        assert(r.deep_view().attrs =~= sig.deep_view().attrs);
        assert(r.deep_view() == sig.deep_view());
    }
    r
}

} // verus!
