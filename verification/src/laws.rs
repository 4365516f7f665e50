//! The engine's guarantees, proved once and for all over the step-indexed
//! interpreter of [`crate::semantics`].
//!
//! The backtracking guarantee itself — a rule that does not match leaves the
//! stream exactly where it was — is part of the contract of
//! [`crate::parse::Parser::try_advance`]; the laws here pin down how the
//! compound rule shapes combine the outcomes of their members.

use crate::node::SpecNodeData;
use crate::semantics::lemma_star_no_miss;
use crate::semantics::mk_node;
use crate::semantics::spec_advance;
use crate::semantics::spec_advance_seq;
use crate::semantics::SpecStep;
use crate::semantics::SpecAdvance;
use crate::symbol::SpecShape;
use crate::symbol::SpecSymbol;
use vstd::prelude::*;

verus! {

/// The cursor an outcome reached, when it matched.
pub open spec fn advance_end(o: SpecAdvance) -> Option<int> {
    match o {
        SpecAdvance::Node(_, q) => Some(q),
        SpecAdvance::Splice(_, q) => Some(q),
        SpecAdvance::Miss(_) => None,
        SpecAdvance::Spent => None,
    }
}

/// Sequence short-circuit: in a sequence of two rules where the first
/// matches and the second then does not, the whole sequence does not match —
/// so the engine winds the stream back to where the sequence began, not to
/// where the first member left it.
pub proof fn law_sequence_short_circuit(
    g: Seq<SpecSymbol>,
    s: int,
    a: int,
    b: int,
    t: Seq<char>,
    pos: int,
    q: int,
    steps: nat,
)
    requires
        1 <= steps,
        g[s].shape == SpecShape::Sequence(seq![a, b]),
        advance_end(spec_advance(g, a, t, pos, (steps - 1) as nat)) == Some(q),
        spec_advance(g, b, t, q, (steps - 1) as nat) is Miss,
    ensures
        spec_advance(g, s, t, pos, steps) is Miss,
{
    reveal_with_fuel(crate::semantics::spec_advance_seq, 4);
    let ms = seq![a, b];
    assert(ms[0] == a && ms[1] == b);
    match spec_advance(g, a, t, pos, (steps - 1) as nat) {
        SpecAdvance::Node(n, qa) => {
            assert(qa == q);
            assert(spec_advance_seq(g, ms, 1, t, q, steps as nat) is Miss);
            assert(spec_advance_seq(g, ms, 0, t, pos, steps as nat) is Miss);
        },
        SpecAdvance::Splice(ns, qa) => {
            assert(qa == q);
            assert(spec_advance_seq(g, ms, 1, t, q, steps as nat) is Miss);
            assert(spec_advance_seq(g, ms, 0, t, pos, steps as nat) is Miss);
        },
        _ => {
            assert(false);
        },
    }
}

/// Ordered choice determinism: in an alternation of two rules whose first
/// member matches, the outcome is the first member's outcome — the second
/// member is never consulted, even if it could match the same input.
pub proof fn law_ordered_choice(
    g: Seq<SpecSymbol>,
    s: int,
    a: int,
    b: int,
    t: Seq<char>,
    pos: int,
    steps: nat,
)
    requires
        1 <= steps,
        g[s].shape == SpecShape::OneOf(seq![a, b]),
    ensures
        spec_advance(g, a, t, pos, (steps - 1) as nat) matches SpecAdvance::Node(n, q) ==> ({
            let picked = seq![n];
            spec_advance(g, s, t, pos, steps) == if g[s].ignore {
                SpecAdvance::Splice(picked, q)
            } else {
                SpecAdvance::Node(mk_node(g[s], t, pos, q, picked), q)
            }
        }),
        spec_advance(g, a, t, pos, (steps - 1) as nat) matches SpecAdvance::Splice(ns, q) ==> ({
            spec_advance(g, s, t, pos, steps) == if g[s].ignore {
                SpecAdvance::Splice(ns, q)
            } else {
                SpecAdvance::Node(mk_node(g[s], t, pos, q, ns), q)
            }
        }),
{
    let ms = seq![a, b];
    assert(ms[0] == a);
}

/// An optional rule never fails to match: whatever its member does, the
/// optional itself either matches (possibly collecting nothing) or runs out
/// of budget.
pub proof fn law_optional_never_fails(
    g: Seq<SpecSymbol>,
    s: int,
    m: int,
    t: Seq<char>,
    pos: int,
    steps: nat,
)
    requires
        1 <= steps,
        g[s].shape == SpecShape::Optional(m),
    ensures
        !(spec_advance(g, s, t, pos, steps) is Miss),
{
}

/// A one-or-more repetition fails exactly when its member fails on the very
/// first attempt; once the first attempt matches, the repetition can only
/// match or run out of budget.
pub proof fn law_one_or_more_floor(
    g: Seq<SpecSymbol>,
    s: int,
    m: int,
    t: Seq<char>,
    pos: int,
    steps: nat,
)
    requires
        1 <= steps,
        g[s].shape == SpecShape::OneOrMore(m),
    ensures
        spec_advance(g, s, t, pos, steps) is Miss <==> spec_advance(
            g,
            m,
            t,
            pos,
            (steps - 1) as nat,
        ) is Miss,
{
    match spec_advance(g, m, t, pos, (steps - 1) as nat) {
        SpecAdvance::Node(_, q) => {
            lemma_star_no_miss(g, m, t, q, (steps - 1) as nat);
        },
        SpecAdvance::Splice(_, q) => {
            lemma_star_no_miss(g, m, t, q, (steps - 1) as nat);
        },
        _ => {
        },
    }
}

/// A zero-or-more repetition never fails to match at all.
pub proof fn law_zero_or_more_never_fails(
    g: Seq<SpecSymbol>,
    s: int,
    m: int,
    t: Seq<char>,
    pos: int,
    steps: nat,
)
    requires
        1 <= steps,
        g[s].shape == SpecShape::ZeroOrMore(m),
    ensures
        !(spec_advance(g, s, t, pos, steps) is Miss),
{
    lemma_star_no_miss(g, m, t, pos, steps);
}

/// Ignore splicing: in a rule `R = A B` where `B` is ignore-flagged and `R`
/// is not, a successful parse yields an `R` node whose children are exactly
/// `A`'s node followed by `B`'s collected grandchildren — no `B` node exists
/// in the tree.
pub proof fn law_ignore_splicing(
    g: Seq<SpecSymbol>,
    r: int,
    a: int,
    b: int,
    t: Seq<char>,
    pos: int,
    q: int,
    q2: int,
    n: crate::node::SpecNode,
    ns: Seq<crate::node::SpecNode>,
    steps: nat,
)
    requires
        1 <= steps,
        g[r].shape == SpecShape::Sequence(seq![a, b]),
        !g[r].ignore,
        !g[r].raw,
        spec_advance(g, a, t, pos, (steps - 1) as nat) == SpecAdvance::Node(n, q),
        spec_advance(g, b, t, q, (steps - 1) as nat) == SpecAdvance::Splice(ns, q2),
    ensures
        spec_advance(g, r, t, pos, steps) == SpecAdvance::Node(
            mk_node(g[r], t, pos, q2, seq![n] + ns),
            q2,
        ),
        mk_node(g[r], t, pos, q2, seq![n] + ns).data == SpecNodeData::Children(seq![n] + ns),
{
    reveal_with_fuel(crate::semantics::spec_advance_seq, 4);
    let ms = seq![a, b];
    assert(ms[0] == a && ms[1] == b);
    assert(spec_advance_seq(g, ms, 2, t, q2, steps as nat) == SpecStep::Got(
        Seq::<crate::node::SpecNode>::empty(),
        q2,
    ));
    assert(ns + Seq::<crate::node::SpecNode>::empty() =~= ns);
    assert(spec_advance_seq(g, ms, 1, t, q, steps as nat) == SpecStep::Got(ns, q2));
    assert(spec_advance_seq(g, ms, 0, t, pos, steps as nat) == SpecStep::Got(seq![n] + ns, q2));
}

/// Raw capture: a node built for a raw-flagged rule carries the literal
/// matched text as its payload; whatever child nodes its members produced
/// are discarded.
pub proof fn law_raw_capture(g: Seq<SpecSymbol>, s: int, t: Seq<char>, pos: int, steps: nat)
    requires
        g[s].raw,
    ensures
        spec_advance(g, s, t, pos, steps) matches SpecAdvance::Node(n, q) ==> n.data
            == SpecNodeData::Raw(t.subrange(pos, q)),
{
}

} // verus!
