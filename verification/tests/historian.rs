use cfr_historian::events::{Action, AgentAction, DealPayload, GameState, HistorianError, Round};
use cfr_historian::historian::CFRHistorian;
use cfr_historian::mapping::BasicActionGenerator;
use cfr_historian::node::{Node, NodeData};
use cfr_historian::state::CFRState;
use cfr_historian::traversal::TraversalState;
use little_sorry::RegretMinimizer;

fn hist(state: CFRState, seat: usize) -> CFRHistorian<BasicActionGenerator> {
    CFRHistorian::new(TraversalState::new(seat), state)
}

fn node(state: &CFRState, idx: usize) -> &Node {
    state.get(idx).expect("node index out of range")
}

fn terminal_utility(state: &CFRState, idx: usize) -> i64 {
    match &node(state, idx).data {
        NodeData::Terminal(td) => td.total_utility,
        _ => panic!("expected a terminal node"),
    }
}

fn is_chance(state: &CFRState, idx: usize) -> bool {
    matches!(node(state, idx).data, NodeData::Chance)
}

fn is_player(state: &CFRState, idx: usize) -> bool {
    matches!(node(state, idx).data, NodeData::Player(_))
}

/// Runs one simulated hand to completion: one own hole card, one action, then
/// the completing round transition carrying the seat's final award.
fn run_hand(state: CFRState, card: u8, action: AgentAction, award: i64) -> CFRState {
    let id = uuid::Uuid::nil();
    let gs = GameState::new(vec![award]);
    let mut h = hist(state, 0);
    h.record_event(&id, &gs, Action::DealStartingHand(DealPayload { idx: 0, card }))
        .unwrap();
    h.record_event(&id, &gs, Action::PlayedAction(action)).unwrap();
    h.record_event(&id, &gs, Action::RoundAdvance(Round::Complete))
        .unwrap();
    h.cfr_state
}

#[test]
fn get_or_create_idempotent() {
    let mut h = hist(CFRState::new(), 0);
    let first = h.ensure_target_node(NodeData::Chance).unwrap();
    let count_after_first = h.cfr_state.node_count();
    let second = h.ensure_target_node(NodeData::Chance).unwrap();
    assert_eq!(first, second);
    assert_eq!(h.cfr_state.node_count(), count_after_first);
    // both calls counted a traversal of the root's edge-slot 0
    assert_eq!(node(&h.cfr_state, 0).get_count(0), 2);
}

#[test]
fn existing_node_data_wins() {
    let mut h = hist(CFRState::new(), 0);
    let first = h.ensure_target_node(NodeData::Chance).unwrap();
    // the second call supplies different node data, which must be discarded
    let second = h
        .ensure_target_node(NodeData::Terminal(cfr_historian::node::TerminalData::new(9)))
        .unwrap();
    assert_eq!(first, second);
    assert!(is_chance(&h.cfr_state, second));
}

#[test]
fn counter_counts_each_traversal() {
    let mut state = CFRState::new();
    for _ in 0..5 {
        state = run_hand(state, 7, AgentAction::Bet(50), 1);
    }
    // five hands took the root edge keyed by card value 7
    assert_eq!(node(&state, 0).get_count(7), 5);
    // and the chance node's edge toward the decision node as often, once per
    // card-dealt anticipation step
    let chance = node(&state, 0).get_child(7).unwrap();
    assert_eq!(node(&state, chance).get_count(7), 5);
}

#[test]
fn terminal_accumulates_awards_and_visits() {
    let mut state = CFRState::new();
    state = run_hand(state, 3, AgentAction::Bet(10), 25);
    state = run_hand(state, 3, AgentAction::Bet(80), -9);
    state = run_hand(state, 3, AgentAction::Bet(1), 4);
    let chance = node(&state, 0).get_child(3).unwrap();
    let decision = node(&state, chance).get_child(3).unwrap();
    let terminal = node(&state, decision).get_child(0).unwrap();
    assert_eq!(terminal_utility(&state, terminal), 20);
    assert_eq!(node(&state, terminal).get_count(0), 3);
}

#[test]
fn terminal_utility_saturates() {
    let mut state = CFRState::new();
    state = run_hand(state, 3, AgentAction::Bet(10), i64::MAX);
    state = run_hand(state, 3, AgentAction::Bet(10), i64::MAX);
    let chance = node(&state, 0).get_child(3).unwrap();
    let decision = node(&state, chance).get_child(3).unwrap();
    let terminal = node(&state, decision).get_child(0).unwrap();
    assert_eq!(terminal_utility(&state, terminal), i64::MAX);
}

#[test]
fn three_hands_share_one_tree() {
    let mut state = CFRState::new();
    // hand 1: own-card A (value 10), bet, award +10
    state = run_hand(state, 10, AgentAction::Bet(100), 10);
    // hand 2: same abstracted path, award -4
    state = run_hand(state, 10, AgentAction::Bet(40), -4);
    // hand 3: own-card B (value 11), check, award +2
    state = run_hand(state, 11, AgentAction::Check, 2);

    // one root, two chance nodes, two decision nodes, two terminal nodes
    assert_eq!(state.node_count(), 7);

    // exactly one chance child per card under the root
    let chance_a = state.child_of(0, 10).unwrap();
    let chance_b = state.child_of(0, 11).unwrap();
    assert!(state.child_of(99, 10).is_none());
    assert!(is_chance(&state, chance_a));
    assert!(is_chance(&state, chance_b));
    assert_ne!(chance_a, chance_b);

    let decision_a = node(&state, chance_a).get_child(10).unwrap();
    let decision_b = node(&state, chance_b).get_child(11).unwrap();
    assert!(is_player(&state, decision_a));
    assert!(is_player(&state, decision_b));

    // the bet edge is slot 0, the check edge slot 1
    let terminal_bet = node(&state, decision_a).get_child(0).unwrap();
    let terminal_check = node(&state, decision_b).get_child(1).unwrap();
    assert_eq!(terminal_utility(&state, terminal_bet), 6);
    assert_eq!(node(&state, terminal_bet).get_count(0), 2);
    assert_eq!(terminal_utility(&state, terminal_check), 2);
    assert_eq!(node(&state, terminal_check).get_count(0), 1);

    // the root edge visit counters saw two hands for A, one for B
    assert_eq!(node(&state, 0).get_count(10), 2);
    assert_eq!(node(&state, 0).get_count(11), 1);
}

#[test]
fn identical_paths_revisit_identical_indices() {
    let id = uuid::Uuid::nil();
    let gs = GameState::new(vec![5]);
    let events = [
        Action::DealStartingHand(DealPayload { idx: 0, card: 20 }),
        Action::PlayedAction(AgentAction::Bet(60)),
        Action::RoundAdvance(Round::Complete),
    ];

    let mut h = hist(CFRState::new(), 0);
    let mut first_trace = Vec::new();
    for ev in &events {
        h.record_event(&id, &gs, *ev).unwrap();
        first_trace.push(h.traversal_state.node_idx());
    }
    let nodes_after_first = h.cfr_state.node_count();

    let mut h2 = hist(h.cfr_state, 0);
    let mut second_trace = Vec::new();
    for ev in &events {
        h2.record_event(&id, &gs, *ev).unwrap();
        second_trace.push(h2.traversal_state.node_idx());
    }
    assert_eq!(second_trace, first_trace);
    // the replay created no node
    assert_eq!(h2.cfr_state.node_count(), nodes_after_first);
}

#[test]
fn other_seats_card_leaves_everything_unchanged() {
    let id = uuid::Uuid::nil();
    let gs = GameState::new(vec![0, 0]);
    let mut h = hist(CFRState::new(), 0);
    let r = h.record_event(
        &id,
        &gs,
        Action::DealStartingHand(DealPayload { idx: 1, card: 30 }),
    );
    assert!(r.is_ok());
    assert_eq!(h.cfr_state.node_count(), 1);
    assert_eq!(h.traversal_state.node_idx(), 0);
    assert_eq!(h.traversal_state.chosen_child_idx(), 0);
    assert_eq!(node(&h.cfr_state, 0).get_count(30), 0);
}

#[test]
fn non_terminal_round_transition_is_a_no_op() {
    let id = uuid::Uuid::nil();
    let gs = GameState::new(vec![0]);
    let mut state = CFRState::new();
    state = run_hand(state, 4, AgentAction::Call, 0);
    let mut h = hist(state, 0);
    h.record_event(&id, &gs, Action::DealStartingHand(DealPayload { idx: 0, card: 4 }))
        .unwrap();
    let node_before = h.traversal_state.node_idx();
    let chosen_before = h.traversal_state.chosen_child_idx();
    let count_before = h.cfr_state.node_count();
    for round in [Round::Preflop, Round::Flop, Round::Turn, Round::River, Round::Showdown] {
        let r = h.record_event(&id, &gs, Action::RoundAdvance(round));
        assert!(r.is_ok());
    }
    assert_eq!(h.cfr_state.node_count(), count_before);
    assert_eq!(h.traversal_state.node_idx(), node_before);
    assert_eq!(h.traversal_state.chosen_child_idx(), chosen_before);
}

#[test]
fn ignored_events_leave_everything_unchanged() {
    let id = uuid::Uuid::nil();
    let gs = GameState::new(vec![0]);
    let mut h = hist(CFRState::new(), 0);
    for ev in [
        Action::GameStart,
        Action::ForcedBet(50),
        Action::PlayerSit(3),
        Action::Award(900),
    ] {
        let r = h.record_event(&id, &gs, ev);
        assert!(r.is_ok());
    }
    assert_eq!(h.cfr_state.node_count(), 1);
    assert_eq!(h.traversal_state.node_idx(), 0);
}

#[test]
fn action_on_chance_node_without_child_is_a_structural_fault() {
    let id = uuid::Uuid::nil();
    let gs = GameState::new(vec![0]);
    // the root is a chance node and nothing is bound at the chosen slot yet
    let mut h = hist(CFRState::new(), 0);
    let r = h.record_event(&id, &gs, Action::PlayedAction(AgentAction::Bet(10)));
    assert!(matches!(r, Err(HistorianError::CFRUnexpectedNode(_))));
    // the arena is unmodified for that slot
    assert_eq!(h.cfr_state.node_count(), 1);
    assert_eq!(node(&h.cfr_state, 0).get_count(0), 0);
    assert!(node(&h.cfr_state, 0).get_child(0).is_none());
}

#[test]
fn completion_on_a_non_terminal_child_is_a_structural_fault() {
    let id = uuid::Uuid::nil();
    let gs = GameState::new(vec![0]);
    let mut h = hist(CFRState::new(), 0);
    // after the deal the cursor rests on the chance node, whose chosen slot is
    // already bound to the anticipatory decision node
    h.record_event(&id, &gs, Action::DealStartingHand(DealPayload { idx: 0, card: 9 }))
        .unwrap();
    let chance = node(&h.cfr_state, 0).get_child(9).unwrap();
    let decision = node(&h.cfr_state, chance).get_child(9).unwrap();
    let r = h.record_event(&id, &gs, Action::RoundAdvance(Round::Complete));
    assert!(matches!(r, Err(HistorianError::CFRUnexpectedNode(_))));
    // the decision node stands, no terminal was created, and the counters
    // incremented on the way stay incremented
    assert!(is_player(&h.cfr_state, decision));
    assert_eq!(node(&h.cfr_state, chance).get_count(9), 2);
    assert_eq!(node(&h.cfr_state, decision).get_count(0), 1);
}

#[test]
fn round_transition_returns_ok_for_every_round() {
    let mut h = hist(CFRState::new(), 0);
    for round in [Round::Starting, Round::Preflop, Round::Complete] {
        assert!(h.handle_round_transition(round).is_ok());
    }
    assert_eq!(h.cfr_state.node_count(), 1);
}

#[test]
fn failed_action_records_like_a_played_action() {
    let id = uuid::Uuid::nil();
    let gs = GameState::new(vec![0]);
    let mut h = hist(CFRState::new(), 0);
    h.record_event(&id, &gs, Action::DealStartingHand(DealPayload { idx: 0, card: 9 }))
        .unwrap();
    let r = h.record_event(&id, &gs, Action::FailedAction(AgentAction::Fold));
    assert!(r.is_ok());
    // fold is edge-slot 3 under the basic scheme; the cursor moved onto the
    // decision node prepared by the card-dealt step
    let chance = node(&h.cfr_state, 0).get_child(9).unwrap();
    let decision = node(&h.cfr_state, chance).get_child(9).unwrap();
    assert_eq!(h.traversal_state.node_idx(), decision);
    assert_eq!(h.traversal_state.chosen_child_idx(), 3);
}

#[test]
fn community_card_grows_the_same_way_as_a_hole_card() {
    let id = uuid::Uuid::nil();
    let gs = GameState::new(vec![0]);
    let mut h = hist(CFRState::new(), 0);
    h.record_event(&id, &gs, Action::DealCommunity(17)).unwrap();
    assert_eq!(h.cfr_state.node_count(), 3);
    let chance = node(&h.cfr_state, 0).get_child(17).unwrap();
    assert!(is_chance(&h.cfr_state, chance));
    assert!(is_player(&h.cfr_state, node(&h.cfr_state, chance).get_child(17).unwrap()));
    // the cursor rests on the chance node, not on the decision node
    assert_eq!(h.traversal_state.node_idx(), chance);
    assert_eq!(h.traversal_state.chosen_child_idx(), 17);
}

#[test]
fn stale_cursor_is_a_node_not_found_fault() {
    let mut h = hist(CFRState::new(), 0);
    h.traversal_state.move_to(99, 0);
    let gs = GameState::new(vec![0]);
    let r = h.record_card(&gs, 12);
    assert!(matches!(r, Err(HistorianError::CFRNodeNotFound)));
    assert_eq!(h.cfr_state.node_count(), 1);
}

#[test]
fn consecutive_actions_chain_decision_nodes() {
    let id = uuid::Uuid::nil();
    let gs = GameState::new(vec![0]);
    let mut h = hist(CFRState::new(), 0);
    h.record_event(&id, &gs, Action::DealStartingHand(DealPayload { idx: 0, card: 2 }))
        .unwrap();
    h.record_event(&id, &gs, Action::PlayedAction(AgentAction::Bet(30)))
        .unwrap();
    let first_decision = h.traversal_state.node_idx();
    h.record_event(&id, &gs, Action::PlayedAction(AgentAction::Call))
        .unwrap();
    let second_decision = h.traversal_state.node_idx();
    assert_ne!(first_decision, second_decision);
    assert!(is_player(&h.cfr_state, second_decision));
    // the second action consumed the bet edge (slot 0) out of the first
    // decision node and chose the call edge (slot 2) as the next one
    assert_eq!(node(&h.cfr_state, first_decision).get_child(0).unwrap(), second_decision);
    assert_eq!(h.traversal_state.chosen_child_idx(), 2);
}

#[test]
fn regret_matchers_are_sized_to_the_legal_edge_count() {
    // the recorder attaches a matcher built exactly like this one
    let matcher = little_sorry::RegretMatcher::new(4);
    assert_eq!(matcher.current_strategy().len(), 4);

    let id = uuid::Uuid::nil();
    let gs = GameState::new(vec![0]);
    let mut h = hist(CFRState::new(), 0);
    h.record_event(&id, &gs, Action::DealStartingHand(DealPayload { idx: 0, card: 2 }))
        .unwrap();
    let chance = node(&h.cfr_state, 0).get_child(2).unwrap();
    let decision = node(&h.cfr_state, chance).get_child(2).unwrap();
    match &node(&h.cfr_state, decision).data {
        NodeData::Player(p) => assert!(p.regret_matcher.is_some()),
        _ => panic!("expected a decision node"),
    }
}
