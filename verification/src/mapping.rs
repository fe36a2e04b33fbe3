//! The action-abstraction interface: a per-traversal component that converts a
//! domain action into a stable small integer edge-slot and reports how many
//! such slots are currently possible.

use crate::events::{AgentAction, GameState};
use crate::state::CFRState;
use crate::traversal::TraversalState;
use vstd::prelude::*;

verus! {

/// An action-abstraction scheme. Constructed once per traversal (it may read
/// the tree state and cursor position at creation) and queried repeatedly
/// during that traversal.
///
/// `action_to_idx` must be deterministic and purely a function of the action's
/// abstracted identity, so that semantically equivalent actions across
/// different simulated hands collapse onto the same tree edge; the contract
/// pins it to the scheme's `spec_action_slot`. `num_potential_actions` sizes
/// new decision nodes' regret-tracking components and so is at least one.
pub trait ActionGenerator: Sized {
    /// The edge-slot the scheme assigns to an action.
    spec fn spec_action_slot(&self, action: AgentAction) -> usize;

    /// The number of legal edges the scheme reports for a domain state.
    spec fn spec_num_actions(&self, game_state: GameState) -> usize;

    fn new(cfr_state: &CFRState, traversal_state: &TraversalState) -> Self;

    fn action_to_idx(&self, game_state: &GameState, action: &AgentAction) -> (r: usize)
        ensures
            r == self.spec_action_slot(*action),
    ;

    fn num_potential_actions(&self, game_state: &GameState) -> (r: usize)
        ensures
            r == self.spec_num_actions(*game_state),
            r >= 1,
    ;
}

/// A minimal abstraction scheme: every bet, whatever its size, collapses onto
/// one edge, and the other action kinds each keep an edge of their own.
pub struct BasicActionGenerator {}

impl ActionGenerator for BasicActionGenerator {
    open spec fn spec_action_slot(&self, action: AgentAction) -> usize {
        match action {
            AgentAction::Bet(_) => 0,
            AgentAction::Check => 1,
            AgentAction::Call => 2,
            AgentAction::Fold => 3,
        }
    }

    open spec fn spec_num_actions(&self, game_state: GameState) -> usize {
        4
    }

    fn new(cfr_state: &CFRState, traversal_state: &TraversalState) -> Self {
        BasicActionGenerator {  }
    }

    fn action_to_idx(&self, game_state: &GameState, action: &AgentAction) -> (r: usize) {
        match action {
            AgentAction::Bet(_) => 0,
            AgentAction::Check => 1,
            AgentAction::Call => 2,
            AgentAction::Fold => 3,
        }
    }

    fn num_potential_actions(&self, game_state: &GameState) -> (r: usize) {
        4
    }
}

} // verus!
