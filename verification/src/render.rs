//! Rendering of the pieces of target syntax the library owns: decimal
//! numbers, trampoline names, and the runtime strategy expression.
//!
//! The surrounding front end splices these strings into the emitted
//! definitions; everything here is specified character-for-character.

use vstd::prelude::*;
use vstd::string::StringExecFns;
use crate::link::{LinkType, LinkTypeV, WellKnownApi, candidates};

verus! {

/// The decimal digits of `d`, for one digit value.
pub open spec fn digit_seq(d: int) -> Seq<char> {
    if d == 0 { "0"@ }
    else if d == 1 { "1"@ }
    else if d == 2 { "2"@ }
    else if d == 3 { "3"@ }
    else if d == 4 { "4"@ }
    else if d == 5 { "5"@ }
    else if d == 6 { "6"@ }
    else if d == 7 { "7"@ }
    else if d == 8 { "8"@ }
    else { "9"@ }
}

/// The decimal rendering of `n`, without leading zeros (except for zero
/// itself).
pub open spec fn dec_seq(n: int) -> Seq<char>
    decreases n,
{
    if n < 10 {
        digit_seq(n)
    } else {
        dec_seq(n / 10) + digit_seq(n % 10)
    }
}

/// Appends the decimal rendering of `n` to `s`.
pub fn push_dec(s: &mut String, n: u64)
    ensures
        final(s)@ == old(s)@ + dec_seq(n as int),
    decreases n,
{
    if n >= 10 {
        push_dec(s, n / 10);
    }
    let d = n % 10;
    let digit: &str = if d == 0 { "0" }
        else if d == 1 { "1" }
        else if d == 2 { "2" }
        else if d == 3 { "3" }
        else if d == 4 { "4" }
        else if d == 5 { "5" }
        else if d == 6 { "6" }
        else if d == 7 { "7" }
        else if d == 8 { "8" }
        else { "9" };
    s.append(digit);
    proof {
        assert(s@ =~= old(s)@ + dec_seq(n as int));
    }
}

/// The name of the trampoline with id `id`.
pub open spec fn trampoline_name_spec(id: int) -> Seq<char> {
    "__initializer"@ + dec_seq(id)
}

/// Renders the trampoline name for `id`, of the form `__initializer` followed
/// by the id in decimal.
pub fn trampoline_name(id: u64) -> (r: String)
    ensures
        r@ == trampoline_name_spec(id as int),
{
    let mut s = "__initializer".to_owned();
    push_dec(&mut s, id);
    s
}

/// Each digit renders as its own single character.
proof fn lemma_digit_facts()
    ensures
        forall|d: int| 0 <= d < 10 ==> (#[trigger] digit_seq(d)).len() == 1,
        forall|a: int, b: int| 0 <= a < 10 && 0 <= b < 10
            && #[trigger] digit_seq(a) == #[trigger] digit_seq(b) ==> a == b,
{
    reveal_strlit("0");
    reveal_strlit("1");
    reveal_strlit("2");
    reveal_strlit("3");
    reveal_strlit("4");
    reveal_strlit("5");
    reveal_strlit("6");
    reveal_strlit("7");
    reveal_strlit("8");
    reveal_strlit("9");
    assert("0"@.len() == 1 && "0"@[0] == '0');
    assert("1"@.len() == 1 && "1"@[0] == '1');
    assert("2"@.len() == 1 && "2"@[0] == '2');
    assert("3"@.len() == 1 && "3"@[0] == '3');
    assert("4"@.len() == 1 && "4"@[0] == '4');
    assert("5"@.len() == 1 && "5"@[0] == '5');
    assert("6"@.len() == 1 && "6"@[0] == '6');
    assert("7"@.len() == 1 && "7"@[0] == '7');
    assert("8"@.len() == 1 && "8"@[0] == '8');
    assert("9"@.len() == 1 && "9"@[0] == '9');
}

/// A decimal rendering is never empty.
proof fn lemma_dec_seq_len(n: int)
    requires
        n >= 0,
    ensures
        dec_seq(n).len() >= 1,
    decreases n,
{
    lemma_digit_facts();
    if n >= 10 {
        lemma_dec_seq_len(n / 10);
    }
}

/// Decimal rendering is injective: equal renderings come from equal
/// numbers.
pub proof fn lemma_dec_seq_injective(a: int, b: int)
    requires
        a >= 0,
        b >= 0,
        dec_seq(a) == dec_seq(b),
    ensures
        a == b,
    decreases a,
{
    lemma_digit_facts();
    if a < 10 && b < 10 {
        assert(dec_seq(a) == digit_seq(a) && dec_seq(b) == digit_seq(b));
    } else if a < 10 && b >= 10 {
        lemma_dec_seq_len(b / 10);
        assert(dec_seq(b).len() >= 2);
        assert(dec_seq(a).len() == 1);
    } else if a >= 10 && b < 10 {
        lemma_dec_seq_len(a / 10);
        assert(dec_seq(a).len() >= 2);
        assert(dec_seq(b).len() == 1);
    } else {
        let la = dec_seq(a / 10).len() as int;
        assert(dec_seq(a).len() == dec_seq(a / 10).len() + 1);
        assert(dec_seq(b).len() == dec_seq(b / 10).len() + 1);
        assert(dec_seq(b / 10).len() == la);
        assert(dec_seq(a / 10) =~= dec_seq(a).subrange(0, la));
        assert(dec_seq(b / 10) =~= dec_seq(b).subrange(0, la));
        lemma_dec_seq_injective(a / 10, b / 10);
        assert(dec_seq(a)[la] == digit_seq(a % 10)[0]);
        assert(dec_seq(b)[la] == digit_seq(b % 10)[0]);
        assert(digit_seq(a % 10) =~= digit_seq(b % 10));
        assert(a % 10 == b % 10);
    }
}

/// No two distinct trampoline ids render to the same name: the generated
/// names are unique exactly as the ids are.
pub proof fn lemma_trampoline_names_injective(i: int, j: int)
    requires
        i >= 0,
        j >= 0,
        trampoline_name_spec(i) == trampoline_name_spec(j),
    ensures
        i == j,
{
    let p = "__initializer"@;
    let ni = trampoline_name_spec(i);
    let nj = trampoline_name_spec(j);
    assert(dec_seq(i) =~= ni.subrange(p.len() as int, ni.len() as int));
    assert(dec_seq(j) =~= nj.subrange(p.len() as int, nj.len() as int));
    lemma_dec_seq_injective(i, j);
}

/// One candidate library name as it appears in the rendered candidate list:
/// quoted, NUL-terminated, and followed by a comma.
pub open spec fn quoted_candidate(n: Seq<char>) -> Seq<char> {
    "\""@ + n + "\\0\","@
}

/// The rendered candidate list, in listed order.
pub open spec fn candidate_list_seq(ns: Seq<Seq<char>>) -> Seq<char>
    decreases ns.len(),
{
    if ns.len() == 0 {
        Seq::<char>::empty()
    } else {
        quoted_candidate(ns[0]) + candidate_list_seq(ns.drop_first())
    }
}

/// The runtime strategy expression a generated unit hands to the resolver.
pub open spec fn strategy_expr_spec(l: LinkTypeV) -> Seq<char> {
    match l {
        LinkTypeV::WellKnown(WellKnownApi::PrimaryGraphicsApi) => "LinkType::Vulkan"@,
        LinkTypeV::WellKnown(WellKnownApi::LegacyGraphicsApi) => "LinkType::OpenGl"@,
        _ => "LinkType::Normal(&["@ + candidate_list_seq(candidates(l)) + "])"@,
    }
}

impl LinkType {
    /// Renders the runtime expression for this strategy.  Library names are
    /// rendered NUL-terminated because the resolver hands them straight to
    /// the platform loader.
    pub fn to_runtime_expr(&self) -> (r: String)
        ensures
            r@ == strategy_expr_spec(self.deep_view()),
    {
        match self {
            LinkType::WellKnown(WellKnownApi::PrimaryGraphicsApi) => "LinkType::Vulkan".to_owned(),
            LinkType::WellKnown(WellKnownApi::LegacyGraphicsApi) => "LinkType::OpenGl".to_owned(),
            LinkType::Named(n) => {
                let mut s = "LinkType::Normal(&[".to_owned();
                s.append("\"");
                s.append(n.as_str());
                s.append("\\0\",");
                s.append("])");
                proof {
                    assert(candidates(self.deep_view()) =~= seq![n@]);
                    assert(seq![n@].drop_first() =~= Seq::<Seq<char>>::empty());
                    assert(candidate_list_seq(Seq::<Seq<char>>::empty())
                        =~= Seq::<char>::empty());
                    assert(candidate_list_seq(seq![n@]) =~= quoted_candidate(n@));
                    assert(s@ =~= strategy_expr_spec(self.deep_view()));
                }
                s
            },
            LinkType::NamedAny(ns) => {
                let mut s = "LinkType::Normal(&[".to_owned();
                let ghost whole: Seq<Seq<char>> = ns.deep_view();
                proof {
                    assert(whole.skip(0) =~= whole);
                }
                let mut i: usize = 0;
                while i < ns.len()
                    invariant
                        i <= ns.len(),
                        whole == ns.deep_view(),
                        whole.len() == ns.len(),
                        s@ + candidate_list_seq(whole.skip(i as int))
                            == "LinkType::Normal(&["@ + candidate_list_seq(whole),
                    decreases ns.len() - i,
                {
                    s.append("\"");
                    s.append(ns[i].as_str());
                    s.append("\\0\",");
                    proof {
                        assert(whole.skip(i as int).drop_first() =~= whole.skip(i as int + 1));
                        assert(whole.skip(i as int)[0] == ns[i as int].deep_view());
                        assert(candidate_list_seq(whole.skip(i as int))
                            =~= quoted_candidate(whole.skip(i as int)[0])
                                + candidate_list_seq(whole.skip(i as int + 1)));
                    }
                    i = i + 1;
                }
                s.append("])");
                proof {
                    assert(whole.skip(ns.len() as int) =~= Seq::<Seq<char>>::empty());
                    assert(s@ =~= strategy_expr_spec(self.deep_view()));
                }
                s
            },
        }
    }
}

} // verus!
