//! The arena: a growable, indexable store of tree nodes, the single source of
//! truth for topology, visit counters and per-node learning state.

use crate::model::{empty_node, NodeDataV, NodeModel};
use crate::node::{Node, NodeData};
use vstd::prelude::*;

verus! {

/// The shared tree storage. Nodes are referenced by stable integer indices;
/// node 0 is the root, created with the arena, and nodes are never deleted.
pub struct CFRState {
    nodes: Vec<Node>,
}

impl View for CFRState {
    type V = Seq<NodeModel>;

    closed spec fn view(&self) -> Seq<NodeModel> {
        self.nodes@.map_values(|n: Node| n@)
    }
}

impl CFRState {
    /// A fresh arena holding only the root node.
    pub fn new() -> (r: CFRState)
        ensures
            r@ == seq![empty_node(NodeDataV::Chance)],
    {
        let mut nodes: Vec<Node> = Vec::new();
        nodes.push(Node::new(NodeData::Chance));
        let r = CFRState { nodes };
        proof {
            assert(r@ =~~= seq![empty_node(NodeDataV::Chance)]);
        }
        r
    }

    /// The arena lives in a vector, so its node count fits the index type.
    pub proof fn lemma_len_fits(&self)
        ensures
            self@.len() <= usize::MAX,
    {
        broadcast use vstd::std_specs::vec::axiom_spec_len;

        assert(self.nodes.len() == self.nodes@.len());
    }

    pub fn node_count(&self) -> (r: usize)
        ensures
            r == self@.len(),
    {
        self.nodes.len()
    }

    /// Indexed lookup; empty only for an out-of-range index, which signals an
    /// invariant violation elsewhere, not an expected runtime condition.
    pub fn get(&self, idx: usize) -> (r: Option<&Node>)
        ensures
            idx < self@.len() ==> (r matches Some(n) && n@ == self@[idx as int]),
            idx >= self@.len() ==> r is None,
    {
        if idx < self.nodes.len() {
            Some(&self.nodes[idx])
        } else {
            None
        }
    }

    /// The child bound at `(idx, slot)`, if the node exists and the slot is
    /// bound.
    pub fn child_of(&self, idx: usize, slot: usize) -> (r: Option<usize>)
        ensures
            idx < self@.len() ==> r == self@[idx as int].child_of(slot as int),
            idx >= self@.len() ==> r is None,
    {
        match self.get(idx) {
            Some(node) => node.get_child(slot),
            None => None,
        }
    }

    /// Count one more traversal of the edge `(idx, slot)`. Reports whether the
    /// index was valid; an invalid index leaves the arena untouched.
    pub fn increment_count(&mut self, idx: usize, slot: usize) -> (ok: bool)
        ensures
            idx < old(self)@.len() ==> ok && final(self)@ == old(self)@.update(
                idx as int,
                old(self)@[idx as int].with_count_inc(slot as int),
            ),
            idx >= old(self)@.len() ==> !ok && final(self)@ == old(self)@,
    {
        if idx < self.nodes.len() {
            let node = &mut self.nodes[idx];
            node.increment_count(slot);
            proof {
                assert(self@ =~~= old(self)@.update(
                    idx as int,
                    old(self)@[idx as int].with_count_inc(slot as int),
                ));
            }
            true
        } else {
            proof {
                assert(self@ =~~= old(self)@);
            }
            false
        }
    }

    /// Append a new node holding `data`, bind it into `parent`'s slot, and
    /// return its index. Rebinding an already-bound slot is refused by
    /// precondition: the tree grower checks before it creates.
    pub fn add(&mut self, parent: usize, slot: usize, data: NodeData) -> (r: usize)
        requires
            parent < old(self)@.len(),
            old(self)@[parent as int].child_of(slot as int) is None,
        ensures
            r == old(self)@.len(),
            final(self)@ == old(self)@.update(
                parent as int,
                old(self)@[parent as int].with_child(slot as int, old(self)@.len() as usize),
            ).push(empty_node(data@)),
    {
        let new_idx = self.nodes.len();
        let node = &mut self.nodes[parent];
        node.set_child(slot, new_idx);
        self.nodes.push(Node::new(data));
        proof {
            assert(self@ =~~= old(self)@.update(
                parent as int,
                old(self)@[parent as int].with_child(slot as int, old(self)@.len() as usize),
            ).push(empty_node(data@)));
        }
        new_idx
    }

    /// Add `award` into the accumulated utility of the terminal node at `idx`,
    /// clamped to the accumulator's range. Reports whether the node exists and
    /// is terminal; otherwise the arena is left untouched.
    pub fn accumulate_utility(&mut self, idx: usize, award: i64) -> (ok: bool)
        ensures
            ({
                let valid = idx < old(self)@.len() && old(self)@[idx as int].data is Terminal;
                &&& ok == valid
                &&& valid ==> final(self)@ == old(self)@.update(
                    idx as int,
                    old(self)@[idx as int].with_utility(
                        crate::model::sat_add_i64(
                            old(self)@[idx as int].data->total_utility,
                            award as int,
                        ),
                    ),
                )
                &&& !valid ==> final(self)@ == old(self)@
            }),
    {
        if idx < self.nodes.len() {
            let node = &mut self.nodes[idx];
            let ok = node.accumulate_utility(award);
            proof {
                if ok {
                    assert(self@ =~~= old(self)@.update(
                        idx as int,
                        old(self)@[idx as int].with_utility(
                            crate::model::sat_add_i64(
                                old(self)@[idx as int].data->total_utility,
                                award as int,
                            ),
                        ),
                    ));
                } else {
                    assert(self@ =~~= old(self)@);
                }
            }
            ok
        } else {
            proof {
                assert(self@ =~~= old(self)@);
            }
            false
        }
    }
}

} // verus!
