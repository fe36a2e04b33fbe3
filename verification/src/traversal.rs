//! The traversal cursor: per-in-flight-hand state recording which node is
//! current, which edge-slot was just chosen, and which seat's perspective the
//! traversal represents.

use vstd::prelude::*;

verus! {

/// Ephemeral cursor, one per simulated hand. Created at the start of a hand's
/// recording and discarded at hand completion; never persisted.
#[derive(Clone, Copy)]
pub struct TraversalState {
    node_idx: usize,
    chosen_child_idx: usize,
    player_idx: usize,
}

impl TraversalState {
    /// A cursor at the root with edge-slot 0 chosen, tracking the perspective
    /// of seat `player_idx`.
    pub fn new(player_idx: usize) -> (r: TraversalState)
        ensures
            r.node_idx() == 0,
            r.chosen_child_idx() == 0,
            r.player_idx() == player_idx,
    {
        TraversalState { node_idx: 0, chosen_child_idx: 0, player_idx }
    }

    /// The index of the current node.
    #[verifier::when_used_as_spec(spec_node_idx)]
    pub fn node_idx(&self) -> (r: usize)
        ensures
            r == self.node_idx(),
    {
        self.node_idx
    }

    pub closed spec fn spec_node_idx(&self) -> usize {
        self.node_idx
    }

    /// The edge-slot chosen to reach the next node.
    #[verifier::when_used_as_spec(spec_chosen_child_idx)]
    pub fn chosen_child_idx(&self) -> (r: usize)
        ensures
            r == self.chosen_child_idx(),
    {
        self.chosen_child_idx
    }

    pub closed spec fn spec_chosen_child_idx(&self) -> usize {
        self.chosen_child_idx
    }

    /// The seat whose perspective this traversal records.
    #[verifier::when_used_as_spec(spec_player_idx)]
    pub fn player_idx(&self) -> (r: usize)
        ensures
            r == self.player_idx(),
    {
        self.player_idx
    }

    pub closed spec fn spec_player_idx(&self) -> usize {
        self.player_idx
    }

    /// Reposition the cursor onto `node_idx` with `chosen_child_idx` chosen as
    /// the next edge; the seat never changes.
    pub fn move_to(&mut self, node_idx: usize, chosen_child_idx: usize)
        ensures
            final(self).node_idx() == node_idx,
            final(self).chosen_child_idx() == chosen_child_idx,
            final(self).player_idx() == old(self).player_idx(),
    {
        self.node_idx = node_idx;
        self.chosen_child_idx = chosen_child_idx;
    }
}

} // verus!
