//! The player's visual description.

use vstd::prelude::*;

verus! {

/// Where the player sprite starts, on screen X.
pub const PLAYER_START_X: i64 = 100;

/// What the engine must spawn for the player: one sprite with this texture
/// at this screen position.
#[derive(Clone, Debug)]
pub struct PlayerNode {
    pub texture: String,
    pub x: i64,
    pub y: i64,
}

/// Describes the player entity: the `blep.png` sprite at the fixed start
/// position.  The engine edge spawns an entity from this description.
pub fn create_player() -> (p: PlayerNode)
    ensures
        p.texture@ == "blep.png"@,
        p.x == PLAYER_START_X,
        p.y == 0,
{
    PlayerNode { texture: "blep.png".to_owned(), x: PLAYER_START_X, y: 0 }
}

} // verus!
