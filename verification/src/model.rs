//! Mathematical model of the game tree and of every mutation the recorder
//! performs on it. Executable contracts throughout the crate are stated over
//! these spec functions.

use vstd::prelude::*;

verus! {

/// Abstract payload of a tree node: a chance point (a dealt card), a decision
/// point (which owns an opaque regret-tracking component), or a terminal
/// (which accumulates the traversing seat's utility).
#[verifier::ext_equal]
pub enum NodeDataV {
    Chance,
    Player { has_matcher: bool },
    Terminal { total_utility: int },
}

impl NodeDataV {
    /// Two payloads are of the same kind when they use the same variant,
    /// whatever the attached values.
    pub open spec fn same_kind(self, other: NodeDataV) -> bool {
        &&& (self is Chance <==> other is Chance)
        &&& (self is Player <==> other is Player)
        &&& (self is Terminal <==> other is Terminal)
    }
}

/// Abstract state of one node: its payload, the bound edge-slots (each mapped
/// to a child index), and a total visit counter per edge-slot (zero where the
/// edge was never taken).
#[verifier::ext_equal]
pub struct NodeModel {
    pub data: NodeDataV,
    pub children: Map<int, usize>,
    pub counts: Map<int, u64>,
}

/// A visit counter grows by one per traversal and pins at its maximum.
pub open spec fn inc_sat(c: u64) -> u64 {
    if c < u64::MAX {
        (c + 1) as u64
    } else {
        c
    }
}

/// Utility accumulation clamped to the accumulator's range.
pub open spec fn sat_add_i64(a: int, b: int) -> int {
    if a + b > i64::MAX {
        i64::MAX as int
    } else if a + b < i64::MIN {
        i64::MIN as int
    } else {
        a + b
    }
}

/// A freshly created node: no bound child, every counter zero.
pub open spec fn empty_node(data: NodeDataV) -> NodeModel {
    NodeModel { data, children: Map::empty(), counts: Map::new(|s: int| true, |s: int| 0u64) }
}

impl NodeModel {
    /// The bound child at `slot`, if any.
    pub open spec fn child_of(self, slot: int) -> Option<usize> {
        if self.children.dom().contains(slot) {
            Some(self.children[slot])
        } else {
            None
        }
    }

    /// This node with the visit counter of `slot` incremented.
    pub open spec fn with_count_inc(self, slot: int) -> NodeModel {
        NodeModel { counts: self.counts.insert(slot, inc_sat(self.counts[slot])), ..self }
    }

    /// This node with `child` bound at `slot`.
    pub open spec fn with_child(self, slot: int, child: usize) -> NodeModel {
        NodeModel { children: self.children.insert(slot, child), ..self }
    }

    /// This node with its terminal utility replaced by `total`.
    pub open spec fn with_utility(self, total: int) -> NodeModel {
        NodeModel { data: NodeDataV::Terminal { total_utility: total }, ..self }
    }
}

/// Every bound child index points inside the arena.
pub open spec fn tree_wf(t: Seq<NodeModel>) -> bool {
    forall|i: int, s: int|
        0 <= i < t.len() && #[trigger] t[i].children.dom().contains(s) ==> t[i].children[s]
            < t.len()
}

/// The index the get-or-create step settles on: the bound child where one
/// exists, the next fresh arena index otherwise.
pub open spec fn grow_target(t: Seq<NodeModel>, from: int, slot: int) -> int {
    match t[from].child_of(slot) {
        Some(c) => c as int,
        None => t.len() as int,
    }
}

/// The tree after one get-or-create step at `(from, slot)`: the edge's visit
/// counter is incremented in every case; where no child is bound, a fresh node
/// holding `data` is appended and bound at the slot. Where a child is already
/// bound, `data` is discarded: the existing node's stored payload wins.
pub open spec fn grown(t: Seq<NodeModel>, from: int, slot: int, data: NodeDataV) -> Seq<
    NodeModel,
> {
    let bumped = t.update(from, t[from].with_count_inc(slot));
    if t[from].child_of(slot) is Some {
        bumped
    } else {
        bumped.update(from, bumped[from].with_child(slot, t.len() as usize)).push(
            empty_node(data),
        )
    }
}

/// Growing at a valid position preserves arena well-formedness, never shrinks
/// the arena, and settles on an index inside the grown arena.
pub proof fn lemma_grown_wf(t: Seq<NodeModel>, from: int, slot: int, data: NodeDataV)
    requires
        tree_wf(t),
        0 <= from < t.len(),
        t.len() <= usize::MAX,
    ensures
        tree_wf(grown(t, from, slot, data)),
        t.len() <= grown(t, from, slot, data).len(),
        0 <= grow_target(t, from, slot) < grown(t, from, slot, data).len(),
{
    let g = grown(t, from, slot, data);
    if t[from].child_of(slot) is Some {
        assert(t[from].children.dom().contains(slot));
        assert forall|i: int, s: int|
            0 <= i < g.len() && #[trigger] g[i].children.dom().contains(s) implies g[i].children[s]
            < g.len() by {
            assert(g[i].children == t[i].children);
        }
    } else {
        assert forall|i: int, s: int|
            0 <= i < g.len() && #[trigger] g[i].children.dom().contains(s) implies g[i].children[s]
            < g.len() by {
            if i == from {
                if s != slot {
                    assert(t[i].children.dom().contains(s));
                }
            } else if i < t.len() {
                assert(g[i].children == t[i].children);
            } else {
                assert(g[i].children == Map::<int, usize>::empty());
            }
        }
    }
}

/// A tree rewritten node by node without touching any child binding stays
/// well-formed.
pub proof fn lemma_same_children_wf(t: Seq<NodeModel>, u: Seq<NodeModel>)
    requires
        tree_wf(t),
        u.len() == t.len(),
        forall|i: int| 0 <= i < t.len() ==> #[trigger] u[i].children == t[i].children,
    ensures
        tree_wf(u),
{
    assert forall|i: int, s: int|
        0 <= i < u.len() && #[trigger] u[i].children.dom().contains(s) implies u[i].children[s]
        < u.len() by {
        assert(u[i].children == t[i].children);
    }
}

/// Cursor position and tree after the recorder handles one event, plus
/// whether the event was accepted.
#[verifier::ext_equal]
pub struct StepOut {
    pub tree: Seq<NodeModel>,
    pub node: int,
    pub chosen: int,
    pub ok: bool,
}

/// A card dealt: the chance child keyed by the card's value is ensured under
/// the current node, a decision child is ensured under that chance node at the
/// same slot in anticipation of the coming action, and the cursor comes to
/// rest on the chance node.
pub open spec fn card_step(t: Seq<NodeModel>, node: int, card: int) -> StepOut {
    let chance = grow_target(t, node, card);
    let t1 = grown(t, node, card, NodeDataV::Chance);
    let t2 = grown(t1, chance, card, NodeDataV::Player { has_matcher: true });
    StepOut { tree: t2, node: chance, chosen: card, ok: true }
}

/// An action taken, already translated to edge-slot `slot`. From a chance
/// node the decision child prepared by the card-dealt step must already exist
/// and the cursor moves onto it; a missing child is a structural fault that
/// leaves the tree untouched. From any other node a decision child is ensured
/// at the cursor's chosen slot.
pub open spec fn action_step(t: Seq<NodeModel>, node: int, chosen: int, slot: int) -> StepOut {
    if t[node].data is Chance {
        match t[node].child_of(chosen) {
            Some(child) => StepOut { tree: t, node: child as int, chosen: slot, ok: true },
            None => StepOut { tree: t, node, chosen, ok: false },
        }
    } else {
        let target = grow_target(t, node, chosen);
        StepOut {
            tree: grown(t, node, chosen, NodeDataV::Player { has_matcher: true }),
            node: target,
            chosen: slot,
            ok: true,
        }
    }
}

/// Hand completion: a terminal child is ensured at the cursor's slot, the
/// cursor moves onto it, its repurposed slot-0 counter is incremented, and the
/// seat's award is added into the accumulated utility. A non-terminal node
/// found at the target is a structural fault; the counters incremented on the
/// way stay incremented.
pub open spec fn terminal_step(t: Seq<NodeModel>, node: int, chosen: int, award: int) -> StepOut {
    let target = grow_target(t, node, chosen);
    let t1 = grown(t, node, chosen, NodeDataV::Terminal { total_utility: 0 });
    let t2 = t1.update(target, t1[target].with_count_inc(0));
    match t1[target].data {
        NodeDataV::Terminal { total_utility } => StepOut {
            tree: t2.update(target, t2[target].with_utility(sat_add_i64(total_utility, award))),
            node: target,
            chosen: 0,
            ok: true,
        },
        _ => StepOut { tree: t2, node: target, chosen: 0, ok: false },
    }
}

} // verus!
