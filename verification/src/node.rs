//! A single tree node: its payload, its lazily populated child slots, and the
//! per-edge visit counters.

use crate::model::{empty_node, NodeDataV, NodeModel};
use vstd::pervasive::VecAdditionalExecFns;
use vstd::prelude::*;

verus! {

/// The opaque regret-tracking component attached to decision nodes. This
/// subsystem only constructs and stores instances; reading and updating them
/// is the training step's business.
#[verifier::external_type_specification]
#[verifier::external_body]
pub struct ExRegretMatcher(little_sorry::CfrPlusRegretMatcher);

/// Relies on `little_sorry::RegretMinimizer::new` for `CfrPlusRegretMatcher`
/// (exported by that crate as `RegretMatcher`): it builds a regret matcher
/// over `num_experts` uniformly weighted experts and panics only when
/// `num_experts` is zero.
#[verifier::external_body]
pub(crate) fn new_regret_matcher(num_experts: usize) -> Box<little_sorry::CfrPlusRegretMatcher>
    requires
        num_experts >= 1,
{
    Box::new(<little_sorry::CfrPlusRegretMatcher as little_sorry::RegretMinimizer>::new(
        num_experts,
    ))
}

/// Payload of a decision node: the regret-tracking component, sized to the
/// number of legal edges at creation time.
pub struct PlayerData {
    pub regret_matcher: Option<Box<little_sorry::CfrPlusRegretMatcher>>,
}

/// Payload of a terminal node: the accumulated utility of the seats that
/// reached it.
pub struct TerminalData {
    pub total_utility: i64,
}

impl TerminalData {
    pub fn new(total_utility: i64) -> (r: TerminalData)
        ensures
            r.total_utility == total_utility,
    {
        TerminalData { total_utility }
    }
}

/// A node's payload: one of the three node kinds.
pub enum NodeData {
    Chance,
    Player(PlayerData),
    Terminal(TerminalData),
}

impl View for NodeData {
    type V = NodeDataV;

    open spec fn view(&self) -> NodeDataV {
        match self {
            NodeData::Chance => NodeDataV::Chance,
            NodeData::Player(p) => NodeDataV::Player { has_matcher: p.regret_matcher is Some },
            NodeData::Terminal(t) => NodeDataV::Terminal {
                total_utility: t.total_utility as int,
            },
        }
    }
}

impl NodeData {
    pub fn is_chance(&self) -> (r: bool)
        ensures
            r == (self@ is Chance),
    {
        match self {
            NodeData::Chance => true,
            _ => false,
        }
    }
}

/// One arena node. Child bindings and visit counters are kept in vectors
/// indexed by edge-slot and padded on demand; an absent entry stands for "no
/// child" and "never visited".
pub struct Node {
    pub data: NodeData,
    children: Vec<Option<usize>>,
    counts: Vec<u64>,
}

impl View for Node {
    type V = NodeModel;

    closed spec fn view(&self) -> NodeModel {
        NodeModel {
            data: self.data@,
            children: Map::new(
                |s: int| 0 <= s < self.children@.len() && self.children@[s] is Some,
                |s: int| self.children@[s].unwrap(),
            ),
            counts: Map::new(
                |s: int| true,
                |s: int|
                    if 0 <= s < self.counts@.len() {
                        self.counts@[s]
                    } else {
                        0u64
                    },
            ),
        }
    }
}

impl Node {
    pub fn new(data: NodeData) -> (r: Node)
        ensures
            r@ == empty_node(data@),
    {
        let r = Node { data, children: Vec::new(), counts: Vec::new() };
        proof {
            assert(r@ =~~= empty_node(r.data@));
        }
        r
    }

    /// The child bound at `slot`, if any.
    pub fn get_child(&self, slot: usize) -> (r: Option<usize>)
        ensures
            r == self@.child_of(slot as int),
    {
        if slot < self.children.len() {
            self.children[slot]
        } else {
            None
        }
    }

    /// How many traversals took the edge at `slot`.
    pub fn get_count(&self, slot: usize) -> (r: u64)
        ensures
            r == self@.counts[slot as int],
    {
        if slot < self.counts.len() {
            self.counts[slot]
        } else {
            0
        }
    }

    /// Count one more traversal of the edge at `slot`; the counter pins at its
    /// maximum instead of wrapping.
    pub fn increment_count(&mut self, slot: usize)
        ensures
            final(self)@ == old(self)@.with_count_inc(slot as int),
    {
        while self.counts.len() <= slot
            invariant
                self.data == old(self).data,
                self.children == old(self).children,
                old(self).counts@.len() <= self.counts@.len(),
                forall|j: int|
                    0 <= j < old(self).counts@.len() ==> self.counts@[j] == old(
                        self,
                    ).counts@[j],
                forall|j: int|
                    old(self).counts@.len() <= j < self.counts@.len() ==> self.counts@[j]
                        == 0u64,
            decreases slot + 1 - self.counts.len(),
        {
            self.counts.push(0);
        }
        let c = self.counts[slot];
        if c < u64::MAX {
            self.counts.set(slot, c + 1);
        }
        proof {
            assert(self@ =~~= old(self)@.with_count_inc(slot as int));
        }
    }

    /// Whether this node is a chance node.
    pub fn is_chance(&self) -> (r: bool)
        ensures
            r == (self@.data is Chance),
    {
        self.data.is_chance()
    }

    /// Add `award` into this node's accumulated utility, clamped to the
    /// accumulator's range. Reports whether the node is terminal; any other
    /// kind is left untouched.
    pub fn accumulate_utility(&mut self, award: i64) -> (ok: bool)
        ensures
            ok == (old(self)@.data is Terminal),
            old(self)@.data is Terminal ==> final(self)@ == old(self)@.with_utility(
                crate::model::sat_add_i64(old(self)@.data->total_utility, award as int),
            ),
            !(old(self)@.data is Terminal) ==> final(self)@ == old(self)@,
    {
        match &mut self.data {
            NodeData::Terminal(td) => {
                let cur = td.total_utility;
                td.total_utility = saturating_add_i64(cur, award);
                proof {
                    assert(self@ =~~= old(self)@.with_utility(
                        crate::model::sat_add_i64(old(self)@.data->total_utility, award as int),
                    ));
                }
                true
            },
            _ => {
                proof {
                    assert(self@ =~~= old(self)@);
                }
                false
            },
        }
    }

    /// Bind `child` at `slot`. The tree grower guarantees a slot is bound at
    /// most once; rebinding is refused here by precondition.
    pub fn set_child(&mut self, slot: usize, child: usize)
        requires
            old(self)@.child_of(slot as int) is None,
        ensures
            final(self)@ == old(self)@.with_child(slot as int, child),
    {
        while self.children.len() <= slot
            invariant
                self.data == old(self).data,
                self.counts == old(self).counts,
                old(self).children@.len() <= self.children@.len(),
                forall|j: int|
                    0 <= j < old(self).children@.len() ==> self.children@[j] == old(
                        self,
                    ).children@[j],
                forall|j: int|
                    old(self).children@.len() <= j < self.children@.len() ==> self.children@[j]
                        is None,
            decreases slot + 1 - self.children.len(),
        {
            self.children.push(None);
        }
        self.children.set(slot, Some(child));
        proof {
            assert(self@ =~~= old(self)@.with_child(slot as int, child));
        }
    }
}

/// Exact saturating addition on the utility accumulator.
fn saturating_add_i64(a: i64, b: i64) -> (r: i64)
    ensures
        r as int == crate::model::sat_add_i64(a as int, b as int),
{
    if b >= 0 {
        if a <= i64::MAX - b {
            a + b
        } else {
            i64::MAX
        }
    } else {
        if a >= i64::MIN - b {
            a + b
        } else {
            i64::MIN
        }
    }
}

} // verus!
