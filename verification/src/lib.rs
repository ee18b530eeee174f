//! Teaching demonstrations for two small pieces of discrete mathematics:
//! a zero-sum game payoff matrix with its maximin/minimax saddle-point
//! analysis, and an undirected-graph adjacency store with a circular
//! vertex layout.

#![verifier::loop_isolation(false)]

mod entropy;
pub mod graph;
pub mod payoff;
