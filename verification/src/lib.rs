use vstd::prelude::*;

pub mod game;
pub mod log;
pub mod player;
mod rng;
pub mod row;
pub mod world;

verus! {

/// Upper bound on grid dimensions (and so on every coordinate), chosen so
/// that signed intermediate arithmetic on coordinates fits easily in `i32`.
pub const MAX_DIM: usize = 0x4000_0000;

} // verus!
