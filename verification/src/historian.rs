//! The event recorder: dispatches each incoming domain event to the
//! appropriate tree-growing sequence and advances the traversal cursor.

use crate::events::{Action, AgentAction, GameState, HistorianError, Round};
use crate::mapping::ActionGenerator;
use crate::model::{
    action_step, card_step, grow_target, grown, lemma_grown_wf, lemma_same_children_wf,
    terminal_step, tree_wf,
};
use crate::node::{new_regret_matcher, NodeData, PlayerData, TerminalData};
use crate::state::CFRState;
use crate::traversal::TraversalState;
use vstd::prelude::*;
use vstd::string::StringExecFns;

verus! {

/// The hand identifier the external event source attaches to every event. The
/// recorder carries it through untouched.
#[verifier::external_type_specification]
#[verifier::external_body]
pub struct ExUuid(uuid::Uuid);

/// Events the recorder leaves without effect: implicit in the root or the path
/// already, or hiding another seat's private information so that the same tree
/// can be reused across simulations with different opponent holdings.
pub open spec fn is_ignored(action: Action, player_idx: usize) -> bool {
    match action {
        Action::GameStart | Action::ForcedBet(_) | Action::PlayerSit(_) | Action::Award(_) => true,
        Action::RoundAdvance(round) => !(round is Complete),
        Action::DealStartingHand(p) => p.idx != player_idx,
        _ => false,
    }
}

/// The recorder for one simulated hand: the traversal cursor, the shared tree
/// state it grows, and the action-abstraction instance injected for this
/// traversal.
pub struct CFRHistorian<T> where T: ActionGenerator {
    pub traversal_state: TraversalState,
    pub cfr_state: CFRState,
    pub action_generator: T,
}

impl<T> CFRHistorian<T> where T: ActionGenerator {
    /// The cursor points inside the arena.
    pub open spec fn cursor_ok(self) -> bool {
        self.traversal_state.node_idx() < self.cfr_state@.len()
    }

    /// The cursor is valid and every bound child index points inside the
    /// arena.
    pub open spec fn wf(self) -> bool {
        self.cursor_ok() && tree_wf(self.cfr_state@)
    }

    /// What recording a dealt card does: the relation between the recorder
    /// before and after, the result, and the card.
    pub open spec fn card_recorded(
        pre: Self,
        post: Self,
        r: Result<(), HistorianError>,
        card: u8,
    ) -> bool {
        &&& pre.wf() ==> {
            let s = card_step(pre.cfr_state@, pre.traversal_state.node_idx() as int, card as int);
            &&& r is Ok
            &&& post.cfr_state@ == s.tree
            &&& post.traversal_state.node_idx() as int == s.node
            &&& post.traversal_state.chosen_child_idx() as int == s.chosen
            &&& post.wf()
        }
        &&& !pre.cursor_ok() ==> {
            &&& r matches Err(e) && e is CFRNodeNotFound
            &&& post.cfr_state@ == pre.cfr_state@
        }
    }

    /// What recording a player action does.
    pub open spec fn action_recorded(
        pre: Self,
        post: Self,
        r: Result<(), HistorianError>,
        action: AgentAction,
    ) -> bool {
        &&& pre.wf() ==> {
            let s = action_step(
                pre.cfr_state@,
                pre.traversal_state.node_idx() as int,
                pre.traversal_state.chosen_child_idx() as int,
                pre.action_generator.spec_action_slot(action) as int,
            );
            &&& post.cfr_state@ == s.tree
            &&& post.traversal_state.node_idx() as int == s.node
            &&& post.traversal_state.chosen_child_idx() as int == s.chosen
            &&& s.ok ==> r is Ok
            &&& !s.ok ==> (r matches Err(e) && e is CFRUnexpectedNode)
            &&& post.wf()
        }
        &&& !pre.cursor_ok() ==> {
            &&& r matches Err(e) && e is CFRNodeNotFound
            &&& post.cfr_state@ == pre.cfr_state@
            &&& post.traversal_state == pre.traversal_state
        }
    }

    /// What recording hand completion with `award` does.
    pub open spec fn terminal_recorded(
        pre: Self,
        post: Self,
        r: Result<(), HistorianError>,
        award: i64,
    ) -> bool {
        &&& pre.wf() ==> {
            let s = terminal_step(
                pre.cfr_state@,
                pre.traversal_state.node_idx() as int,
                pre.traversal_state.chosen_child_idx() as int,
                award as int,
            );
            &&& post.cfr_state@ == s.tree
            &&& post.traversal_state.node_idx() as int == s.node
            &&& post.traversal_state.chosen_child_idx() as int == s.chosen
            &&& s.ok ==> r is Ok
            &&& !s.ok ==> (r matches Err(e) && e is CFRUnexpectedNode)
            &&& post.wf()
        }
        &&& !pre.cursor_ok() ==> {
            &&& r matches Err(e) && e is CFRNodeNotFound
            &&& post.cfr_state@ == pre.cfr_state@
            &&& post.traversal_state == pre.traversal_state
        }
    }

    /// A recorder over `cfr_state` whose traversal starts at `traversal_state`,
    /// with a freshly constructed action-abstraction instance.
    pub fn new(traversal_state: TraversalState, cfr_state: CFRState) -> (r: Self)
        ensures
            r.traversal_state == traversal_state,
            r.cfr_state == cfr_state,
    {
        let action_generator = T::new(&cfr_state, &traversal_state);
        CFRHistorian { traversal_state, cfr_state, action_generator }
    }

    /// The central get-or-create step: increment the visit counter of the
    /// cursor's current edge (always, regardless of outcome) and return the
    /// index of the child bound there, creating it from `node_data` only where
    /// no child is bound yet. An existing child's stored data wins and
    /// `node_data` is discarded. Fails only on a stale cursor index.
    pub fn ensure_target_node(&mut self, node_data: NodeData) -> (r: Result<
        usize,
        HistorianError,
    >)
        ensures
            final(self).traversal_state == old(self).traversal_state,
            final(self).action_generator == old(self).action_generator,
            old(self).cursor_ok() ==> {
                let from = old(self).traversal_state.node_idx() as int;
                let slot = old(self).traversal_state.chosen_child_idx() as int;
                &&& r matches Ok(idx) && idx as int == grow_target(old(self).cfr_state@, from, slot)
                &&& final(self).cfr_state@ == grown(old(self).cfr_state@, from, slot, node_data@)
            },
            old(self).wf() ==> {
                &&& final(self).wf()
                &&& r matches Ok(idx) && (idx as int) < final(self).cfr_state@.len()
                &&& old(self).cfr_state@.len() <= final(self).cfr_state@.len()
            },
            !old(self).cursor_ok() ==> {
                &&& r matches Err(e) && e is CFRNodeNotFound
                &&& final(self).cfr_state@ == old(self).cfr_state@
            },
    {
        let from_node_idx = self.traversal_state.node_idx();
        let from_child_idx = self.traversal_state.chosen_child_idx();
        proof {
            self.cfr_state.lemma_len_fits();
            if old(self).wf() {
                lemma_grown_wf(
                    old(self).cfr_state@,
                    from_node_idx as int,
                    from_child_idx as int,
                    node_data@,
                );
            }
        }
        // Increment the count of the node we are coming from.
        if !self.cfr_state.increment_count(from_node_idx, from_child_idx) {
            return Err(HistorianError::CFRNodeNotFound);
        }
        let to = match self.cfr_state.get(from_node_idx) {
            Some(node) => node.get_child(from_child_idx),
            None => {
                return Err(HistorianError::CFRNodeNotFound);
            },
        };
        match to {
            // The node already exists, so the work is done.
            Some(t) => Ok(t),
            // The node does not exist yet: create it with the provided data.
            None => Ok(self.cfr_state.add(from_node_idx, from_child_idx, node_data)),
        }
    }

    /// Record a dealt card: ensure a chance child keyed by the card's value,
    /// ensure a decision child under that chance node at the same slot in
    /// anticipation of the upcoming action, and leave the cursor on the chance
    /// node (not on the newly ensured decision node).
    pub fn record_card(&mut self, game_state: &GameState, card: u8) -> (r: Result<
        (),
        HistorianError,
    >)
        ensures
            Self::card_recorded(*old(self), *final(self), r, card),
            final(self).traversal_state.player_idx() == old(self).traversal_state.player_idx(),
    {
        let card_value = card as usize;
        let cur = self.traversal_state.node_idx();
        // The chance child is keyed by the card's value.
        self.traversal_state.move_to(cur, card_value);
        let chance_node_idx = match self.ensure_target_node(NodeData::Chance) {
            Ok(idx) => idx,
            Err(e) => {
                return Err(e);
            },
        };
        // Move to the chance node.
        self.traversal_state.move_to(chance_node_idx, card_value);
        // Create a decision child of the chance node for the coming action.
        let num_experts = self.action_generator.num_potential_actions(game_state);
        let regret_matcher = new_regret_matcher(num_experts);
        let player = self.ensure_target_node(
            NodeData::Player(PlayerData { regret_matcher: Some(regret_matcher) }),
        );
        match player {
            Ok(_) => (),
            Err(e) => {
                return Err(e);
            },
        }
        // The cursor comes to rest on the chance node, so the next event
        // starts from there rather than from the decision node.
        self.traversal_state.move_to(chance_node_idx, card_value);
        Ok(())
    }

    /// Record a player action: from a chance node the decision child prepared
    /// by the card-dealt step must already exist (a missing one signals an
    /// out-of-order event stream and is a structural fault); from any other
    /// node a decision child is ensured at the cursor's chosen slot.
    pub fn record_action(&mut self, game_state: &GameState, action: AgentAction) -> (r: Result<
        (),
        HistorianError,
    >)
        ensures
            Self::action_recorded(*old(self), *final(self), r, action),
            final(self).traversal_state.player_idx() == old(self).traversal_state.player_idx(),
    {
        let action_idx = self.action_generator.action_to_idx(game_state, &action);
        let node_idx = self.traversal_state.node_idx();
        let chosen = self.traversal_state.chosen_child_idx();
        let (is_chance, existing_child) = match self.cfr_state.get(node_idx) {
            Some(node) => (node.is_chance(), node.get_child(chosen)),
            None => {
                return Err(HistorianError::CFRNodeNotFound);
            },
        };
        if is_chance {
            // At a chance node the child for this specific path must already
            // exist, created by the preceding card-dealt step.
            match existing_child {
                Some(child_idx) => {
                    self.traversal_state.move_to(child_idx, action_idx);
                    Ok(())
                },
                None => Err(
                    HistorianError::CFRUnexpectedNode(
                        String::from_str("Expected existing child node for chance node"),
                    ),
                ),
            }
        } else {
            // Record the betting action with a fresh regret matcher.
            let num_experts = self.action_generator.num_potential_actions(game_state);
            let regret_matcher = new_regret_matcher(num_experts);
            let to_node_idx = match self.ensure_target_node(
                NodeData::Player(PlayerData { regret_matcher: Some(regret_matcher) }),
            ) {
                Ok(idx) => idx,
                Err(e) => {
                    return Err(e);
                },
            };
            self.traversal_state.move_to(to_node_idx, action_idx);
            Ok(())
        }
    }

    /// Record hand completion: ensure a terminal child at the cursor's slot,
    /// move onto it, count the visit in its repurposed slot-0 counter, and add
    /// the traversing seat's final award into its accumulated utility.
    pub fn record_terminal(&mut self, game_state: &GameState) -> (r: Result<(), HistorianError>)
        requires
            old(self).traversal_state.player_idx() < game_state.player_winnings@.len(),
        ensures
            Self::terminal_recorded(
                *old(self),
                *final(self),
                r,
                game_state.player_winnings@[old(self).traversal_state.player_idx() as int],
            ),
            final(self).traversal_state.player_idx() == old(self).traversal_state.player_idx(),
    {
        let ghost pre = *self;
        let to_node_idx = match self.ensure_target_node(
            NodeData::Terminal(TerminalData::new(0)),
        ) {
            Ok(idx) => idx,
            Err(e) => {
                return Err(e);
            },
        };
        self.traversal_state.move_to(to_node_idx, 0);
        // The traversing seat's final award.
        let award = game_state.player_winnings[self.traversal_state.player_idx()];
        let ghost t1 = self.cfr_state@;
        // Terminal nodes have no real children, so slot 0 is repurposed as the
        // visit counter used to average the accumulated utility.
        let _counted = self.cfr_state.increment_count(to_node_idx, 0);
        let added = self.cfr_state.accumulate_utility(to_node_idx, award);
        proof {
            if pre.wf() {
                lemma_same_children_wf(t1, self.cfr_state@);
            }
        }
        if added {
            Ok(())
        } else {
            Err(HistorianError::CFRUnexpectedNode(String::from_str("Expected terminal node")))
        }
    }

    /// A non-terminal round transition mutates nothing: the tree spans the
    /// entire hand across all betting rounds as one contiguous path, so rounds
    /// neither reset the cursor nor start a new subtree.
    pub fn handle_round_transition(&mut self, round: Round) -> (r: Result<(), HistorianError>)
        ensures
            r is Ok,
            *final(self) == *old(self),
    {
        match round {
            // Terminal state is handled separately when the hand completes.
            Round::Complete => Ok(()),
            _ => Ok(()),
        }
    }

    /// Dispatch one domain event. Recognized events grow the tree as the
    /// card-dealt, action-taken and hand-complete steps describe; all other
    /// events are left without effect.
    pub fn record_event(
        &mut self,
        _id: &uuid::Uuid,
        game_state: &GameState,
        action: Action,
    ) -> (r: Result<(), HistorianError>)
        requires
            (match action {
                Action::RoundAdvance(Round::Complete) => old(self).traversal_state.player_idx()
                    < game_state.player_winnings@.len(),
                _ => true,
            }),
        ensures
            final(self).traversal_state.player_idx() == old(self).traversal_state.player_idx(),
            is_ignored(action, old(self).traversal_state.player_idx()) ==> (r is Ok && *final(self)
                == *old(self)),
            (action matches Action::RoundAdvance(Round::Complete)) ==> Self::terminal_recorded(
                *old(self),
                *final(self),
                r,
                game_state.player_winnings@[old(self).traversal_state.player_idx() as int],
            ),
            (action matches Action::DealStartingHand(p) && p.idx == old(
                self,
            ).traversal_state.player_idx()) ==> Self::card_recorded(
                *old(self),
                *final(self),
                r,
                action->DealStartingHand_0.card,
            ),
            (action matches Action::DealCommunity(_)) ==> Self::card_recorded(
                *old(self),
                *final(self),
                r,
                action->DealCommunity_0,
            ),
            (action matches Action::PlayedAction(_)) ==> Self::action_recorded(
                *old(self),
                *final(self),
                r,
                action->PlayedAction_0,
            ),
            (action matches Action::FailedAction(_)) ==> Self::action_recorded(
                *old(self),
                *final(self),
                r,
                action->FailedAction_0,
            ),
    {
        match action {
            // These are all assumed from game start and encoded in the root.
            Action::GameStart | Action::ForcedBet(_) | Action::PlayerSit(_) => Ok(()),
            // The final round transition carries the final award amounts.
            Action::RoundAdvance(Round::Complete) => self.record_terminal(game_state),
            Action::RoundAdvance(round) => self.handle_round_transition(round),
            // Awards can reflect side pots, so only the final award recorded
            // at the terminal node counts.
            Action::Award(_) => Ok(()),
            Action::DealStartingHand(payload) => {
                // Only the traversal's own hole cards are recorded, so the
                // tree can be shared between simulation runs.
                if payload.idx == self.traversal_state.player_idx() {
                    self.record_card(game_state, payload.card)
                } else {
                    Ok(())
                }
            },
            Action::PlayedAction(a) => self.record_action(game_state, a),
            Action::FailedAction(a) => self.record_action(game_state, a),
            Action::DealCommunity(card) => self.record_card(game_state, card),
        }
    }
}

} // verus!
