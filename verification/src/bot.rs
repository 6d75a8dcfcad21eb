//! The autoplay bot: a heuristic that jumps for the player.

use vstd::prelude::*;
use crate::buffer::Terrain;
use crate::game::Game;
use crate::player::Player;
use crate::terrain::{TerrainType, TerrainUnit};

verus! {

/// Column `c` lies in the buffer and carries an obstacle.
pub open spec fn obstacle_at(units: Seq<TerrainUnit>, c: int) -> bool {
    0 <= c < units.len() && units[c].obstacle
}

/// The last column of the scan window. The window starts at the player's
/// column and is centred on the column half the air time ahead.
pub open spec fn scan_end(px: int, max_air_time: int) -> int {
    px + 2 * (max_air_time / 2)
}

/// Some column of the scan window carries an obstacle.
pub open spec fn obstacle_ahead(units: Seq<TerrainUnit>, px: int, max_air_time: int) -> bool {
    exists|c: int| px <= c <= scan_end(px, max_air_time) && #[trigger] obstacle_at(units, c)
}

/// The bot jumps: an obstacle lies in the scan window, none stands on the
/// landing column, and the unit under the player is flat.
pub open spec fn wants_jump(units: Seq<TerrainUnit>, px: int, max_air_time: int) -> bool {
    &&& max_air_time >= 0
    &&& obstacle_ahead(units, px, max_air_time)
    &&& !obstacle_at(units, px + max_air_time)
    &&& 0 <= px < units.len()
    &&& units[px].unit_type == TerrainType::Flat
}

/// Decides whether the bot jumps on this tick.
pub fn bot_wants_jump(terrain: &Terrain, game: &Game) -> (jump: bool)
    ensures
        jump == wants_jump(
            terrain.vec@,
            terrain.config.player_column as int,
            game.max_air_time as int,
        ),
{
    let px: usize = terrain.config.player_column as usize;
    let len = terrain.vec.len();
    if game.max_air_time < 0 || px >= len {
        return false;
    }
    let air: usize = game.max_air_time as usize;
    let end: usize = px + 2 * (air / 2);
    let mut near = false;
    let mut c: usize = px;
    while c <= end && c < len && !near
        invariant
            px <= c <= end + 1,
            len == terrain.vec.len(),
            end == scan_end(px as int, air as int),
            end < usize::MAX,
            near ==> obstacle_ahead(terrain.vec@, px as int, air as int),
            !near ==> forall|k: int| px <= k < c ==> !obstacle_at(terrain.vec@, k),
        decreases (end + 1 - c) + (if near { 0int } else { 1 }),
    {
        if terrain.vec[c].obstacle {
            near = true;
            assert(obstacle_at(terrain.vec@, c as int));
        } else {
            c = c + 1;
        }
    }
    let landing: usize = px + air;
    let blocked = landing < len && terrain.vec[landing].obstacle;
    near && !blocked && terrain.vec[px].unit_type == TerrainType::Flat
}

/// Lets the bot play one tick: where it wants to jump, it asks the player
/// to, exactly as a key press would.
pub fn autoplay(player: &mut Player, terrain: &Terrain, game: &Game)
    ensures
        *final(player) == if wants_jump(
            terrain.vec@,
            terrain.config.player_column as int,
            game.max_air_time as int,
        ) {
            old(player).after_jump(TerrainType::Flat)
        } else {
            *old(player)
        },
{
    if bot_wants_jump(terrain, game) {
        player.jump(terrain.vec[terrain.config.player_column as usize].unit_type);
    }
}

} // verus!
