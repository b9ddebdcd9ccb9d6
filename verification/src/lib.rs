pub mod algorithms;
pub mod display;
mod rng;
pub mod tui;

use vstd::prelude::*;

use crate::algorithms::Algorithm;
use crate::algorithms::GridSize;

verus! {

/// The configuration a run starts from: the grid dimensions and the
/// selected search algorithm.
pub struct SetupConfig {
    pub grid_size: GridSize,
    pub algorithm: Algorithm,
}

impl SetupConfig {
    pub fn new(grid_size: GridSize, algorithm: Algorithm) -> (r: SetupConfig)
        ensures
            r.grid_size == grid_size,
            r.algorithm == algorithm,
    {
        SetupConfig { grid_size, algorithm }
    }
}

} // verus!
