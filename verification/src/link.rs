//! The binding strategy: the resolved, structured form of the annotation.

use vstd::prelude::*;

verus! {

/// A well-known tag: an annotation keyword that implies an intrinsic
/// resolution procedure without naming a library explicitly.
#[derive(Clone, Copy, PartialEq, Eq, Structural, Debug)]
pub enum WellKnownApi {
    /// The primary graphics API; the only tag with lifecycle bookkeeping.
    PrimaryGraphicsApi,
    /// The legacy graphics API.
    LegacyGraphicsApi,
}

/// How a block of declarations is bound to a library at run time.
/// Exactly one variant is produced per annotation; an annotation matching
/// none of the three grammars is a parse error, never a silent default.
#[derive(Debug)]
pub enum LinkType {
    /// A recognized keyword; the resolution strategy is implicit.
    WellKnown(WellKnownApi),
    /// A single candidate library.
    Named(String),
    /// Candidate libraries tried in listed order; the first success wins.
    NamedAny(Vec<String>),
}

/// The spec-level image of a strategy.
pub enum LinkTypeV {
    WellKnown(WellKnownApi),
    Named(Seq<char>),
    NamedAny(Seq<Seq<char>>),
}

impl DeepView for LinkType {
    type V = LinkTypeV;

    open spec fn deep_view(&self) -> LinkTypeV {
        match self {
            LinkType::WellKnown(api) => LinkTypeV::WellKnown(*api),
            LinkType::Named(n) => LinkTypeV::Named(n@),
            LinkType::NamedAny(ns) => LinkTypeV::NamedAny(ns.deep_view()),
        }
    }
}

/// The ordered list of library names a strategy tries at resolution time.
/// A well-known strategy names no library: its candidates are implicit.
pub open spec fn candidates(l: LinkTypeV) -> Seq<Seq<char>> {
    match l {
        LinkTypeV::WellKnown(_) => seq![],
        LinkTypeV::Named(n) => seq![n],
        LinkTypeV::NamedAny(ns) => ns,
    }
}

/// A one-candidate `NamedAny` resolves in the same order as the `Named`
/// strategy of that single candidate.
pub proof fn lemma_single_candidate_any_equals_named(n: Seq<char>)
    ensures
        candidates(LinkTypeV::NamedAny(seq![n])) == candidates(LinkTypeV::Named(n)),
{
}

/// Clones a list of library names.
fn clone_names(v: &Vec<String>) -> (r: Vec<String>)
    ensures
        r.deep_view() == v.deep_view(),
{
    let mut r: Vec<String> = Vec::new();
    let mut i: usize = 0;
    while i < v.len()
        invariant
            i <= v.len(),
            r.deep_view().len() == i,
            forall|k: int| 0 <= k < i ==> (#[trigger] r.deep_view()[k]) == v.deep_view()[k],
        decreases v.len() - i,
    {
        let ghost dv0 = r.deep_view();
        let s = v[i].clone();
        r.push(s);
        proof {
            assert forall|k: int| 0 <= k <= dv0.len()
                implies #[trigger] r.deep_view()[k]
                    == (if k < dv0.len() { dv0[k] } else { v.deep_view()[i as int] }) by {
                assert(r.deep_view()[k] == r@[k].deep_view());
            }
        }
        i = i + 1;
    }
    proof {
        assert(r.deep_view() =~= v.deep_view());
    }
    r
}

impl Clone for LinkType {
    /// Cloning preserves the strategy exactly.
    fn clone(&self) -> (res: Self)
        ensures
            res.deep_view() == self.deep_view(),
    {
        match self {
            LinkType::WellKnown(api) => LinkType::WellKnown(*api),
            LinkType::Named(n) => LinkType::Named(n.clone()),
            LinkType::NamedAny(ns) => LinkType::NamedAny(clone_names(ns)),
        }
    }
}

impl LinkType {
    /// True only for the strategy whose trampolines receive lifecycle
    /// bookkeeping.
    pub fn is_primary(&self) -> (r: bool)
        ensures
            r == (self.deep_view() == LinkTypeV::WellKnown(WellKnownApi::PrimaryGraphicsApi)),
    {
        match self {
            LinkType::WellKnown(WellKnownApi::PrimaryGraphicsApi) => true,
            _ => false,
        }
    }
}

} // verus!
