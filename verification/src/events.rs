//! The tagged domain-event type the recorder consumes, the snapshot of domain
//! state it reads, and the recorder's error surface.

use vstd::prelude::*;

verus! {

/// The betting rounds of a hand. Only the transition to `Complete` makes the
/// recorder act; the tree spans the entire hand across all rounds as one
/// contiguous path.
#[derive(Clone, Copy, PartialEq, Eq, Structural)]
pub enum Round {
    Starting,
    Preflop,
    Flop,
    Turn,
    River,
    Showdown,
    Complete,
}

/// A player's raw action as the rules engine reports it. The action mapping
/// decides which of these collapse onto the same tree edge.
#[derive(Clone, Copy)]
pub enum AgentAction {
    Fold,
    Check,
    Call,
    Bet(u64),
}

/// Payload of a hole-card deal: the seat the card went to and the card's
/// value.
#[derive(Clone, Copy)]
pub struct DealPayload {
    pub idx: usize,
    pub card: u8,
}

/// One domain event, exactly as the external event source reports it.
#[derive(Clone, Copy)]
pub enum Action {
    GameStart,
    ForcedBet(u64),
    PlayerSit(usize),
    RoundAdvance(Round),
    Award(i64),
    DealStartingHand(DealPayload),
    PlayedAction(AgentAction),
    FailedAction(AgentAction),
    DealCommunity(u8),
}

/// Snapshot of the domain state the recorder reads: the per-seat final
/// winnings, consulted only when a hand completes.
pub struct GameState {
    pub player_winnings: Vec<i64>,
}

impl GameState {
    pub fn new(player_winnings: Vec<i64>) -> (r: GameState)
        ensures
            r.player_winnings@ == player_winnings@,
    {
        GameState { player_winnings }
    }
}

/// The recorder's two fault kinds. Both abandon the current hand's recording
/// and leave the shared arena valid for subsequent hands.
#[derive(Debug)]
pub enum HistorianError {
    /// An arena index was stale or invalid: an internal-consistency fault in
    /// cursor management, not an expected runtime condition.
    CFRNodeNotFound,
    /// The node encountered was of a kind inconsistent with the event being
    /// processed, with a description of what was expected. This signals an
    /// out-of-order event stream.
    CFRUnexpectedNode(String),
}

impl HistorianError {
    pub fn is_node_not_found(&self) -> (r: bool)
        ensures
            r == (self is CFRNodeNotFound),
    {
        match self {
            HistorianError::CFRNodeNotFound => true,
            _ => false,
        }
    }

    pub fn is_unexpected_node(&self) -> (r: bool)
        ensures
            r == (self is CFRUnexpectedNode),
    {
        match self {
            HistorianError::CFRUnexpectedNode(_) => true,
            _ => false,
        }
    }
}

} // verus!
