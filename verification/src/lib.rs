//! Resource-allocation modelling: groups of capacity items, an aggregate
//! request per group, and weighted connections between items of different
//! groups, translated into a linear optimization model and decoded back into
//! a per-group selection of items.

pub mod laws;
pub mod solver;
pub mod state;
