//! A typed description of interaction nets: symbols, cells, variables,
//! equations, nets and rules as traits over associated types.
pub mod compact;
pub mod net;
pub mod rule;
pub mod symbol;
pub mod term;
