use vstd::prelude::*;

verus! {

/// Why a level could not be generated.
#[derive(Clone, Copy, Debug, PartialEq, Eq, Structural)]
pub enum GenerationError {
    /// A grid dimension or the tile size is zero.
    Configuration,
    /// The final grid holds no floor tile to place the player on.
    NoFloorTile,
}

} // verus!
