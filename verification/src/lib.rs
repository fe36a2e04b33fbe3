//! Incremental construction of an extensive-form game tree for a
//! Counterfactual Regret Minimization (CFR) solver.
//!
//! A shared arena of nodes ([`state::CFRState`]) is grown one game event at a
//! time: a traversal cursor ([`traversal::TraversalState`]) threads a single
//! simulated hand through the tree, and the event recorder
//! ([`historian::CFRHistorian`]) decides, per event kind, how the cursor
//! advances and which node kind is created.

pub mod events;
pub mod historian;
pub mod laws;
pub mod mapping;
pub mod model;
pub mod node;
pub mod replay;
pub mod state;
pub mod traversal;
