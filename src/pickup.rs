//! Collectible items that a script can place in the world.
use vstd::prelude::*;

verus! {

/// The kind of a collectible item.
#[derive(Clone, Copy, Debug, PartialEq, Eq, Structural)]
pub enum Pickup {
    Potplant,
    CarePackage,
    Tv,
    Fridge,
    Pillow,
    Soap,
    Towel,
    VideoGame,
}

/// Side of the square, in tiles, that every collectible occupies.
pub const PICKUP_SIZE_TILES: usize = 3;

} // verus!
