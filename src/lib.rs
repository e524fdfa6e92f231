//! An automaton whose cells are the edges of an unbounded hexagonal grid.
//!
//! Each hex stores three of its six edges; the other three belong to its
//! neighbours. A board keeps records only for hexes with an edge that is not
//! dead, and a rule advances it one generation at a time.

pub mod board;
pub mod generation;
pub mod laws;
pub mod math;
pub mod region;
pub mod rule;
mod store;

pub use board::Board;
pub use generation::Update;
pub use rule::Rule;
pub use region::NeighborRegion;
