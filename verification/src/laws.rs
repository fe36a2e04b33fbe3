//! Laws of the tree-growing model: idempotence of the get-or-create step,
//! exact visit-counter accumulation under any interleaving of hands, and
//! exact terminal utility accumulation.

use crate::model::{
    empty_node, grow_target, grown, inc_sat, sat_add_i64, terminal_step, NodeDataV, NodeModel,
};
use vstd::prelude::*;

verus! {

/// Get-or-create idempotence: growing twice at the same (parent, slot), with
/// any node data, settles on the same child index both times; the second grow
/// increments the parent's edge visit counter but creates no new node and
/// changes no topology.
pub proof fn lemma_grow_idempotent(
    t: Seq<NodeModel>,
    from: int,
    slot: int,
    d1: NodeDataV,
    d2: NodeDataV,
)
    requires
        0 <= from < t.len(),
        t.len() <= usize::MAX,
    ensures
        ({
            let t1 = grown(t, from, slot, d1);
            let t2 = grown(t1, from, slot, d2);
            &&& grow_target(t1, from, slot) == grow_target(t, from, slot)
            &&& t2.len() == t1.len()
            &&& t2[from].counts[slot] == inc_sat(t1[from].counts[slot])
            &&& forall|i: int| 0 <= i < t1.len() && i != from ==> t2[i] == t1[i]
            &&& t2[from].children == t1[from].children
            &&& t2[from].data == t1[from].data
        }),
{
    let t1 = grown(t, from, slot, d1);
    assert(t1[from].children.dom().contains(slot));
}

/// One get-or-create step, as a record: which edge it took and which node data
/// it carried.
pub struct GrowOp {
    pub from: int,
    pub slot: int,
    pub data: NodeDataV,
}

/// The tree after a sequence of get-or-create steps, applied in order.
pub open spec fn apply_grows(t: Seq<NodeModel>, ops: Seq<GrowOp>) -> Seq<NodeModel>
    decreases ops.len(),
{
    if ops.len() == 0 {
        t
    } else {
        apply_grows(grown(t, ops[0].from, ops[0].slot, ops[0].data), ops.skip(1))
    }
}

/// How many of the steps took the edge `(from, slot)`.
pub open spec fn hits(ops: Seq<GrowOp>, from: int, slot: int) -> nat
    decreases ops.len(),
{
    if ops.len() == 0 {
        0
    } else {
        (if ops[0].from == from && ops[0].slot == slot {
            1nat
        } else {
            0nat
        }) + hits(ops.skip(1), from, slot)
    }
}

/// Every step starts from a node that already exists when the step runs.
pub open spec fn ops_valid(t: Seq<NodeModel>, ops: Seq<GrowOp>) -> bool
    decreases ops.len(),
{
    ops.len() == 0 || {
        &&& 0 <= ops[0].from < t.len()
        &&& ops_valid(grown(t, ops[0].from, ops[0].slot, ops[0].data), ops.skip(1))
    }
}

/// Counter monotonicity: after any interleaving of get-or-create steps — in
/// particular, the steps of many hands interleaved in any order — an edge's
/// visit counter has grown by exactly the number of steps that took that edge.
pub proof fn lemma_counter_accumulation(t: Seq<NodeModel>, ops: Seq<GrowOp>, from: int, slot: int)
    requires
        ops_valid(t, ops),
        0 <= from < t.len(),
        t[from].counts[slot] + hits(ops, from, slot) <= u64::MAX,
    ensures
        ({
            let u = apply_grows(t, ops);
            &&& u.len() >= t.len()
            &&& u[from].counts[slot] == t[from].counts[slot] + hits(ops, from, slot)
        }),
    decreases ops.len(),
{
    if ops.len() == 0 {
    } else {
        let t1 = grown(t, ops[0].from, ops[0].slot, ops[0].data);
        assert(t.len() <= t1.len());
        if ops[0].from == from && ops[0].slot == slot {
            assert(hits(ops, from, slot) >= 1);
            assert(t1[from].counts[slot] == t[from].counts[slot] + 1);
        } else {
            assert(t1[from].counts[slot] == t[from].counts[slot]);
        }
        lemma_counter_accumulation(t1, ops.skip(1), from, slot);
    }
}

/// The sum of a sequence of awards.
pub open spec fn award_sum(awards: Seq<int>) -> int
    decreases awards.len(),
{
    if awards.len() == 0 {
        0
    } else {
        awards[0] + award_sum(awards.skip(1))
    }
}

/// The tree after a sequence of hands, each completing at the terminal child
/// reached from the cursor position `(node, chosen)` with its own award.
pub open spec fn apply_terminals(
    t: Seq<NodeModel>,
    node: int,
    chosen: int,
    awards: Seq<int>,
) -> Seq<NodeModel>
    decreases awards.len(),
{
    if awards.len() == 0 {
        t
    } else {
        apply_terminals(
            terminal_step(t, node, chosen, awards[0]).tree,
            node,
            chosen,
            awards.skip(1),
        )
    }
}

/// Every prefix sum of the awards, shifted by `base`, stays inside the
/// accumulator's range.
pub open spec fn sums_in_range(base: int, awards: Seq<int>) -> bool {
    forall|k: int|
        0 <= k <= awards.len() ==> i64::MIN <= base + award_sum(#[trigger] awards.take(k))
            <= i64::MAX
}

proof fn lemma_award_sum_take_succ(awards: Seq<int>, k: int)
    requires
        0 <= k < awards.len(),
    ensures
        award_sum(awards.take(k + 1)) == awards[0] + award_sum(awards.skip(1).take(k)),
    decreases k,
{
    let u = awards.take(k + 1);
    assert(u.skip(1) =~= awards.skip(1).take(k));
    assert(award_sum(u) == u[0] + award_sum(u.skip(1)));
}

/// Inductive core of terminal accumulation: hands completing at an existing
/// terminal node add their awards to its utility, one each, and its repurposed
/// slot-0 visit counter counts them.
proof fn lemma_terminal_accumulation_bound(
    t: Seq<NodeModel>,
    node: int,
    chosen: int,
    term: int,
    awards: Seq<int>,
)
    requires
        0 <= node < t.len(),
        t.len() <= usize::MAX,
        0 <= term < t.len(),
        node != term,
        t[node].child_of(chosen) == Some(term as usize),
        t[term].data is Terminal,
        sums_in_range(t[term].data->total_utility, awards),
        t[term].counts[0] + awards.len() <= u64::MAX,
    ensures
        ({
            let u = apply_terminals(t, node, chosen, awards);
            &&& u.len() == t.len()
            &&& u[term].data == NodeDataV::Terminal {
                total_utility: t[term].data->total_utility + award_sum(awards),
            }
            &&& u[term].counts[0] == t[term].counts[0] + awards.len()
        }),
    decreases awards.len(),
{
    let u0 = t[term].data->total_utility;
    if awards.len() == 0 {
        assert(t[term].data == NodeDataV::Terminal { total_utility: u0 + award_sum(awards) });
    } else {
        let a0 = awards[0];
        let s = terminal_step(t, node, chosen, a0);
        assert(grow_target(t, node, chosen) == term);
        assert(awards.take(1).skip(1) =~= Seq::<int>::empty());
        assert(award_sum(Seq::<int>::empty()) == 0);
        assert(award_sum(awards.take(1)) == awards.take(1)[0] + award_sum(
            awards.take(1).skip(1),
        ));
        assert(award_sum(awards.take(1)) == a0);
        assert(awards.take(0) =~= Seq::<int>::empty());
        assert(award_sum(awards.take(0)) == 0);
        assert(i64::MIN <= u0 + a0 <= i64::MAX);
        assert(sat_add_i64(u0, a0) == u0 + a0);
        let t3 = s.tree;
        assert(t3.len() == t.len());
        assert(t3[node].child_of(chosen) == Some(term as usize));
        assert(t3[term].data == NodeDataV::Terminal { total_utility: u0 + a0 });
        assert(t3[term].counts[0] == t[term].counts[0] + 1);
        assert(sums_in_range(u0 + a0, awards.skip(1))) by {
            assert forall|k: int| 0 <= k <= awards.skip(1).len() implies i64::MIN <= (u0 + a0)
                + award_sum(#[trigger] awards.skip(1).take(k)) <= i64::MAX by {
                lemma_award_sum_take_succ(awards, k);
                assert(i64::MIN <= u0 + award_sum(awards.take(k + 1)) <= i64::MAX);
            }
        }
        lemma_terminal_accumulation_bound(t3, node, chosen, term, awards.skip(1));
        assert(award_sum(awards) == a0 + award_sum(awards.skip(1)));
    }
}

/// Terminal accumulation: for a terminal node created and then reached by a
/// sequence of hands with awards `a1 .. an`, each the traversing seat's own
/// payoff, the node's accumulated utility equals the sum of the awards and its
/// repurposed slot-0 visit counter equals `n`.
pub proof fn lemma_terminal_accumulation(
    t: Seq<NodeModel>,
    node: int,
    chosen: int,
    awards: Seq<int>,
)
    requires
        0 <= node < t.len(),
        t.len() < usize::MAX,
        t[node].child_of(chosen) is None,
        awards.len() >= 1,
        sums_in_range(0, awards),
        awards.len() <= u64::MAX,
    ensures
        ({
            let u = apply_terminals(t, node, chosen, awards);
            let term = t.len() as int;
            &&& u.len() == t.len() + 1
            &&& u[term].data == NodeDataV::Terminal { total_utility: award_sum(awards) }
            &&& u[term].counts[0] == awards.len()
        }),
{
    let a0 = awards[0];
    let term = t.len() as int;
    let s = terminal_step(t, node, chosen, a0);
    let t1 = grown(t, node, chosen, NodeDataV::Terminal { total_utility: 0 });
    assert(grow_target(t, node, chosen) == term);
    assert(t1[term] == empty_node(NodeDataV::Terminal { total_utility: 0 }));
    assert(awards.take(1).skip(1) =~= Seq::<int>::empty());
    assert(award_sum(Seq::<int>::empty()) == 0);
    assert(award_sum(awards.take(1)) == awards.take(1)[0] + award_sum(awards.take(1).skip(1)));
    assert(award_sum(awards.take(1)) == a0);
    assert(awards.take(0) =~= Seq::<int>::empty());
    assert(award_sum(awards.take(0)) == 0);
    assert(i64::MIN <= a0 <= i64::MAX);
    let t3 = s.tree;
    assert(t3.len() == t.len() + 1);
    assert(t3[node].child_of(chosen) == Some(term as usize));
    assert(t3[term].data == NodeDataV::Terminal { total_utility: a0 });
    assert(t3[term].counts[0] == 1);
    assert(sums_in_range(a0, awards.skip(1))) by {
        assert forall|k: int| 0 <= k <= awards.skip(1).len() implies i64::MIN <= a0 + award_sum(
            #[trigger] awards.skip(1).take(k),
        ) <= i64::MAX by {
            lemma_award_sum_take_succ(awards, k);
            assert(i64::MIN <= 0 + award_sum(awards.take(k + 1)) <= i64::MAX);
        }
    }
    lemma_terminal_accumulation_bound(t3, node, chosen, term, awards.skip(1));
    assert(award_sum(awards) == a0 + award_sum(awards.skip(1)));
}

} // verus!
