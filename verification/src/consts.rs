use vstd::prelude::*;

verus! {

/// Number of columns of a board.
pub const W: usize = 10;

/// Number of rows of a board: the cells that one packed column holds.
pub const H: usize = 16;

/// The cell value of an obstacle block.
pub const OBSTACLE: u64 = 11;

/// Gauge points earned by a placement that starts a chain.
pub const GAUGE_GAIN: i32 = 8;

/// Gauge points needed to use the ability.
pub const GAUGE_FULL: i32 = 80;

/// The largest number of moves that one packed sequence can hold.
pub const MAX_DEPTH: usize = 16;

} // verus!
