//! The mathematical meaning of matching a rule against an input.
//!
//! [`spec_advance`] is a step-indexed interpreter over the rule arena: given
//! a grammar, a rule index, the input, a cursor and a step budget, it says
//! exactly which outcome the engine produces — the node built (or the
//! children spliced through an ignore-flagged rule), the new cursor, a
//! mismatch, or that the budget ran out.  One step of budget pays for one
//! attempt at one rule, so any outcome other than [`SpecAdvance::Spent`] is
//! the outcome of the unbounded recursive-descent algorithm.

use crate::input::pos_at;
use crate::node::SpecNode;
use crate::node::SpecNodeData;
use crate::symbol::SpecShape;
use crate::symbol::SpecSymbol;
use vstd::prelude::*;

verus! {

/// The outcome of the shape-specific matching step of one rule:
/// the collected child nodes and the new cursor, or a mismatch,
/// or an exhausted step budget.
pub ghost enum SpecStep {
    Got(Seq<SpecNode>, int),
    /// No match; the index is where the last attempted character match
    /// failed, the position a failed parse reports.
    Miss(int),
    Spent,
}

/// The outcome a rule hands to the rule that invoked it, after its
/// presentation flags were applied.
pub ghost enum SpecAdvance {
    /// The rule matched and built a node; the cursor moved to the given index.
    Node(SpecNode, int),
    /// The rule matched but is ignore-flagged: its collected children are
    /// spliced into the invoking rule's child list.
    Splice(Seq<SpecNode>, int),
    /// The rule did not match; the cursor is wound back to where it was.
    /// The index is where the last attempted character match failed.
    Miss(int),
    /// The step budget ran out before an outcome was reached.
    Spent,
}

/// The display name a rule gives its node: its own name, or a name derived
/// from its shape when it has none.
pub open spec fn sym_name(sym: SpecSymbol) -> Seq<char> {
    match sym.name {
        Some(n) => n,
        None => match sym.shape {
            SpecShape::Sequence(_) => "Sequence"@,
            SpecShape::OneOf(_) => "OneOf"@,
            SpecShape::Optional(_) => "Optional"@,
            SpecShape::OneOrMore(_) => "OneOrMore"@,
            SpecShape::ZeroOrMore(_) => "ZeroOrMore"@,
            SpecShape::Terminal(_) => "Terminal"@,
            SpecShape::AnyExcept(_) => "AnyExcept"@,
        },
    }
}

/// The node a rule builds when it matched from `pos` to `q` with the given
/// collected children: raw-flagged rules keep the matched text and discard
/// the children, all others keep the children.
pub open spec fn mk_node(
    sym: SpecSymbol,
    t: Seq<char>,
    pos: int,
    q: int,
    children: Seq<SpecNode>,
) -> SpecNode {
    SpecNode {
        name: sym_name(sym),
        start: pos_at(t, pos),
        end: pos_at(t, q),
        data: if sym.raw {
            SpecNodeData::Raw(t.subrange(pos, q))
        } else {
            SpecNodeData::Children(children)
        },
    }
}

/// The outcome of matching rule `s` of grammar `g` against `t` at `pos`
/// with the given step budget.
pub open spec fn spec_advance(
    g: Seq<SpecSymbol>,
    s: int,
    t: Seq<char>,
    pos: int,
    steps: nat,
) -> SpecAdvance
    decreases steps, 1nat, 0nat,
{
    if steps == 0 {
        SpecAdvance::Spent
    } else {
        let sym = g[s];
        let step = match sym.shape {
            SpecShape::Terminal(c) => if pos < t.len() && t[pos] == c {
                SpecStep::Got(Seq::empty(), pos + 1)
            } else {
                SpecStep::Miss(pos)
            },
            SpecShape::AnyExcept(cs) => if pos < t.len() && !cs.contains(t[pos]) {
                SpecStep::Got(Seq::empty(), pos + 1)
            } else {
                SpecStep::Miss(pos)
            },
            SpecShape::Sequence(ms) => spec_advance_seq(g, ms, 0, t, pos, steps),
            SpecShape::OneOf(ms) => spec_advance_choice(g, ms, 0, t, pos, steps, pos),
            SpecShape::Optional(m) => spec_opt(g, m, t, pos, steps),
            SpecShape::OneOrMore(m) => spec_plus(g, m, t, pos, steps),
            SpecShape::ZeroOrMore(m) => spec_star(g, m, t, pos, steps),
        };
        match step {
            SpecStep::Got(children, q) => if sym.ignore {
                SpecAdvance::Splice(children, q)
            } else {
                SpecAdvance::Node(mk_node(sym, t, pos, q, children), q)
            },
            SpecStep::Miss(f) => SpecAdvance::Miss(f),
            SpecStep::Spent => SpecAdvance::Spent,
        }
    }
}

/// The collected children of an optional rule: the member's contribution
/// when it matches, nothing — and never a mismatch — when it does not.
pub open spec fn spec_opt(g: Seq<SpecSymbol>, m: int, t: Seq<char>, pos: int, steps: nat) -> SpecStep
    decreases steps, 0nat, 1nat,
{
    if steps == 0 {
        SpecStep::Spent
    } else {
        match spec_advance(g, m, t, pos, (steps - 1) as nat) {
            SpecAdvance::Node(n, q) => SpecStep::Got(seq![n], q),
            SpecAdvance::Splice(ns, q) => SpecStep::Got(ns, q),
            SpecAdvance::Miss(_) => SpecStep::Got(Seq::empty(), pos),
            SpecAdvance::Spent => SpecStep::Spent,
        }
    }
}

/// The collected children of a one-or-more repetition: the member must
/// match once, and is then repeated like a zero-or-more repetition.
pub open spec fn spec_plus(g: Seq<SpecSymbol>, m: int, t: Seq<char>, pos: int, steps: nat) -> SpecStep
    decreases steps, 0nat, 1nat,
{
    if steps == 0 {
        SpecStep::Spent
    } else {
        match spec_advance(g, m, t, pos, (steps - 1) as nat) {
            SpecAdvance::Node(n, q) => match spec_star(g, m, t, q, (steps - 1) as nat) {
                SpecStep::Got(ns, r) => SpecStep::Got(seq![n] + ns, r),
                rest => rest,
            },
            SpecAdvance::Splice(ns, q) => match spec_star(g, m, t, q, (steps - 1) as nat) {
                SpecStep::Got(ns2, r) => SpecStep::Got(ns + ns2, r),
                rest => rest,
            },
            SpecAdvance::Miss(f) => SpecStep::Miss(f),
            SpecAdvance::Spent => SpecStep::Spent,
        }
    }
}

/// The collected children of a sequence rule, matching the members from
/// index `from` on, each against the cursor the one before it reached.
/// A mismatch of any member is a mismatch of the whole sequence.
pub open spec fn spec_advance_seq(
    g: Seq<SpecSymbol>,
    ms: Seq<int>,
    from: int,
    t: Seq<char>,
    pos: int,
    steps: nat,
) -> SpecStep
    decreases steps, 0nat, (if from < ms.len() { ms.len() - from } else { 0 }),
{
    if steps == 0 {
        SpecStep::Spent
    } else if from >= ms.len() {
        SpecStep::Got(Seq::empty(), pos)
    } else {
        match spec_advance(g, ms[from], t, pos, (steps - 1) as nat) {
            SpecAdvance::Node(n, q) => match spec_advance_seq(g, ms, from + 1, t, q, steps) {
                SpecStep::Got(ns, r) => SpecStep::Got(seq![n] + ns, r),
                rest => rest,
            },
            SpecAdvance::Splice(ns, q) => match spec_advance_seq(g, ms, from + 1, t, q, steps) {
                SpecStep::Got(ns2, r) => SpecStep::Got(ns + ns2, r),
                rest => rest,
            },
            SpecAdvance::Miss(f) => SpecStep::Miss(f),
            SpecAdvance::Spent => SpecStep::Spent,
        }
    }
}

/// The outcome of an ordered alternation, trying the members from index
/// `from` on, all at the same cursor: the first member that matches decides.
pub open spec fn spec_advance_choice(
    g: Seq<SpecSymbol>,
    ms: Seq<int>,
    from: int,
    t: Seq<char>,
    pos: int,
    steps: nat,
    fp: int,
) -> SpecStep
    decreases steps, 0nat, (if from < ms.len() { ms.len() - from } else { 0 }),
{
    if steps == 0 {
        SpecStep::Spent
    } else if from >= ms.len() {
        SpecStep::Miss(fp)
    } else {
        match spec_advance(g, ms[from], t, pos, (steps - 1) as nat) {
            SpecAdvance::Node(n, q) => SpecStep::Got(seq![n], q),
            SpecAdvance::Splice(ns, q) => SpecStep::Got(ns, q),
            SpecAdvance::Miss(f) => spec_advance_choice(g, ms, from + 1, t, pos, steps, f),
            SpecAdvance::Spent => SpecStep::Spent,
        }
    }
}

/// The collected children of a repetition: member `m` is tried over and
/// over, each attempt one step cheaper, until it does not match.  The
/// repetition itself never misses — zero matches collect nothing.
pub open spec fn spec_star(g: Seq<SpecSymbol>, m: int, t: Seq<char>, pos: int, steps: nat) -> SpecStep
    decreases steps, 0nat, 0nat,
{
    if steps == 0 {
        SpecStep::Spent
    } else {
        match spec_advance(g, m, t, pos, (steps - 1) as nat) {
            SpecAdvance::Node(n, q) => match spec_star(g, m, t, q, (steps - 1) as nat) {
                SpecStep::Got(ns, r) => SpecStep::Got(seq![n] + ns, r),
                rest => rest,
            },
            SpecAdvance::Splice(ns, q) => match spec_star(g, m, t, q, (steps - 1) as nat) {
                SpecStep::Got(ns2, r) => SpecStep::Got(ns + ns2, r),
                rest => rest,
            },
            SpecAdvance::Miss(_) => SpecStep::Got(Seq::empty(), pos),
            SpecAdvance::Spent => SpecStep::Spent,
        }
    }
}

/// A repetition never misses: at worst it collects nothing.
pub proof fn lemma_star_no_miss(g: Seq<SpecSymbol>, m: int, t: Seq<char>, pos: int, steps: nat)
    ensures
        !(spec_star(g, m, t, pos, steps) is Miss),
    decreases steps,
{
    if steps > 0 {
        match spec_advance(g, m, t, pos, (steps - 1) as nat) {
            SpecAdvance::Node(_, q) => {
                lemma_star_no_miss(g, m, t, q, (steps - 1) as nat);
            },
            SpecAdvance::Splice(_, q) => {
                lemma_star_no_miss(g, m, t, q, (steps - 1) as nat);
            },
            _ => {
            },
        }
    }
}

/// A match never moves the cursor backwards nor beyond the input.
pub proof fn lemma_advance_bounds(g: Seq<SpecSymbol>, s: int, t: Seq<char>, pos: int, steps: nat)
    requires
        0 <= pos <= t.len(),
    ensures
        spec_advance(g, s, t, pos, steps) matches SpecAdvance::Node(_, q) ==> pos <= q <= t.len(),
        spec_advance(g, s, t, pos, steps) matches SpecAdvance::Splice(_, q) ==> pos <= q
            <= t.len(),
        spec_advance(g, s, t, pos, steps) matches SpecAdvance::Miss(f) ==> pos <= f <= t.len(),
    decreases steps, 1nat, 0nat,
{
    if steps > 0 {
        let sym = g[s];
        match sym.shape {
            SpecShape::Sequence(ms) => {
                lemma_seq_bounds(g, ms, 0, t, pos, steps);
            },
            SpecShape::OneOf(ms) => {
                lemma_choice_bounds(g, ms, 0, t, pos, steps, pos);
            },
            SpecShape::Optional(m) => {
                lemma_opt_bounds(g, m, t, pos, steps);
            },
            SpecShape::OneOrMore(m) => {
                lemma_plus_bounds(g, m, t, pos, steps);
            },
            SpecShape::ZeroOrMore(m) => {
                lemma_star_bounds(g, m, t, pos, steps);
                lemma_star_no_miss(g, m, t, pos, steps);
            },
            _ => {
            },
        }
    }
}

pub proof fn lemma_opt_bounds(g: Seq<SpecSymbol>, m: int, t: Seq<char>, pos: int, steps: nat)
    requires
        0 <= pos <= t.len(),
    ensures
        spec_opt(g, m, t, pos, steps) matches SpecStep::Got(_, q) ==> pos <= q <= t.len(),
        !(spec_opt(g, m, t, pos, steps) is Miss),
    decreases steps, 0nat, 1nat,
{
    if steps > 0 {
        lemma_advance_bounds(g, m, t, pos, (steps - 1) as nat);
    }
}

pub proof fn lemma_plus_bounds(g: Seq<SpecSymbol>, m: int, t: Seq<char>, pos: int, steps: nat)
    requires
        0 <= pos <= t.len(),
    ensures
        spec_plus(g, m, t, pos, steps) matches SpecStep::Got(_, q) ==> pos <= q <= t.len(),
        spec_plus(g, m, t, pos, steps) matches SpecStep::Miss(f) ==> pos <= f <= t.len(),
    decreases steps, 0nat, 1nat,
{
    if steps > 0 {
        lemma_advance_bounds(g, m, t, pos, (steps - 1) as nat);
        match spec_advance(g, m, t, pos, (steps - 1) as nat) {
            SpecAdvance::Node(_, q) => {
                lemma_star_bounds(g, m, t, q, (steps - 1) as nat);
                lemma_star_no_miss(g, m, t, q, (steps - 1) as nat);
            },
            SpecAdvance::Splice(_, q) => {
                lemma_star_bounds(g, m, t, q, (steps - 1) as nat);
                lemma_star_no_miss(g, m, t, q, (steps - 1) as nat);
            },
            _ => {
            },
        }
    }
}

pub proof fn lemma_seq_bounds(
    g: Seq<SpecSymbol>,
    ms: Seq<int>,
    from: int,
    t: Seq<char>,
    pos: int,
    steps: nat,
)
    requires
        0 <= pos <= t.len(),
    ensures
        spec_advance_seq(g, ms, from, t, pos, steps) matches SpecStep::Got(_, q) ==> pos <= q
            <= t.len(),
        spec_advance_seq(g, ms, from, t, pos, steps) matches SpecStep::Miss(f) ==> pos <= f
            <= t.len(),
    decreases steps, 0nat, (if from < ms.len() { ms.len() - from } else { 0 }),
{
    if steps > 0 && from < ms.len() {
        lemma_advance_bounds(g, ms[from], t, pos, (steps - 1) as nat);
        match spec_advance(g, ms[from], t, pos, (steps - 1) as nat) {
            SpecAdvance::Node(_, q) => {
                lemma_seq_bounds(g, ms, from + 1, t, q, steps);
            },
            SpecAdvance::Splice(_, q) => {
                lemma_seq_bounds(g, ms, from + 1, t, q, steps);
            },
            _ => {
            },
        }
    }
}

pub proof fn lemma_choice_bounds(
    g: Seq<SpecSymbol>,
    ms: Seq<int>,
    from: int,
    t: Seq<char>,
    pos: int,
    steps: nat,
    fp: int,
)
    requires
        0 <= pos <= t.len(),
        pos <= fp <= t.len(),
    ensures
        spec_advance_choice(g, ms, from, t, pos, steps, fp) matches SpecStep::Got(_, q) ==> pos
            <= q <= t.len(),
        spec_advance_choice(g, ms, from, t, pos, steps, fp) matches SpecStep::Miss(f) ==> pos <= f
            <= t.len(),
    decreases steps, 0nat, (if from < ms.len() { ms.len() - from } else { 0 }),
{
    if steps > 0 && from < ms.len() {
        lemma_advance_bounds(g, ms[from], t, pos, (steps - 1) as nat);
        match spec_advance(g, ms[from], t, pos, (steps - 1) as nat) {
            SpecAdvance::Miss(f) => {
                lemma_choice_bounds(g, ms, from + 1, t, pos, steps, f);
            },
            _ => {
            },
        }
    }
}

pub proof fn lemma_star_bounds(g: Seq<SpecSymbol>, m: int, t: Seq<char>, pos: int, steps: nat)
    requires
        0 <= pos <= t.len(),
    ensures
        spec_star(g, m, t, pos, steps) matches SpecStep::Got(_, q) ==> pos <= q <= t.len(),
    decreases steps, 0nat, 0nat,
{
    if steps > 0 {
        lemma_advance_bounds(g, m, t, pos, (steps - 1) as nat);
        match spec_advance(g, m, t, pos, (steps - 1) as nat) {
            SpecAdvance::Node(_, q) => {
                lemma_star_bounds(g, m, t, q, (steps - 1) as nat);
            },
            SpecAdvance::Splice(_, q) => {
                lemma_star_bounds(g, m, t, q, (steps - 1) as nat);
            },
            _ => {
            },
        }
    }
}

} // verus!
