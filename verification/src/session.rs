//! One tick of the game: what an input does, the order in which terrain,
//! player and difficulty advance, and the picture that a tick leaves.

use vstd::prelude::*;
use crate::buffer::Terrain;
use crate::game::Game;
use crate::generator::{heights_fit, rolls_within, Targets};
use crate::player::{Player, PlayerState, TickInput};
use crate::terrain::{TerrainTile, TerrainType, TerrainUnit};

verus! {

/// What the player can ask for between two ticks.
#[derive(Copy, Clone, Debug, PartialEq, Eq, Structural)]
pub enum InputEvent {
    Jump,
    TogglePause,
    Quit,
}

/// One terrain column as it is to be drawn.
#[derive(Copy, Clone, Debug, PartialEq, Eq)]
pub struct VisibleUnit {
    /// Screen row of the top tile.
    pub row: i64,
    /// Index of the column within the visible width.
    pub column: u16,
    pub tiles: [TerrainTile; 3],
    pub obstacle: bool,
}

/// The picture of one tick.
#[derive(Debug, PartialEq, Eq)]
pub struct Snapshot {
    pub units: Vec<VisibleUnit>,
    pub player_row: i32,
    pub player_column: u16,
    pub score: u32,
    pub highscore: u32,
}

/// How a tick ended.
#[derive(Debug, PartialEq, Eq)]
pub enum TickOutcome {
    /// The world moved on by one tick; this is what it looked like before
    /// the difficulty advanced.
    Advanced(Snapshot),
    /// The player has not started yet: nothing moved.
    Waiting,
    /// The game is paused: nothing moved.
    Paused,
    /// The player is dead: nothing moved.
    Dead,
}

/// The game after an input. Quit ends the run; a pause toggles unless the
/// player is idle or dead.
pub open spec fn game_after_input(g: Game, p: Player, e: InputEvent) -> Game {
    if e == InputEvent::Quit {
        Game { playing: false, ..g }
    } else if e == InputEvent::TogglePause && p.state != PlayerState::Idle && p.state
        != PlayerState::Dead {
        Game { pause: !g.pause, ..g }
    } else {
        g
    }
}

/// The player after an input while `under` is the slope of the unit under
/// it. The first input that is not Quit sets an idle player running; after
/// that a jump is taken unless the game is paused.
pub open spec fn player_after_input(g: Game, p: Player, under: TerrainType, e: InputEvent) -> Player {
    if e == InputEvent::Quit {
        p
    } else if p.state == PlayerState::Idle {
        Player { state: PlayerState::Running, ..p }
    } else if e == InputEvent::Jump && !g.pause {
        p.after_jump(under)
    } else {
        p
    }
}

/// The snapshot shows the visible width of the terrain at its settled
/// offset, the player, and the score.
pub open spec fn shows(snap: Snapshot, terrain: Terrain, player: Player, game: Game) -> bool {
    &&& snap.units.len() == terrain.config.visible_width
    &&& forall|j: int|
        0 <= j < snap.units.len() ==> {
            let shown = #[trigger] snap.units[j];
            &&& shown.row == terrain.vec[j].initial_y + terrain.offset_y
            &&& shown.column == j
            &&& shown.tiles == terrain.vec[j].tiles
            &&& shown.obstacle == terrain.vec[j].obstacle
        }
    &&& snap.player_row == player.y_pos
    &&& snap.player_column == terrain.config.player_column
    &&& snap.score == game.score
    &&& snap.highscore == game.highscore
}

/// The tick would move the world on: the player has started, the game is
/// not paused and the player is alive.
pub open spec fn tick_advances(game: Game, player: Player) -> bool {
    &&& player.state != PlayerState::Idle
    &&& player.state != PlayerState::Dead
    &&& !game.pause
}

/// What the next tick computes fits the machine's integers, and a refill
/// that is due finds one noise sample for each unit of the chunk.
pub open spec fn tick_fits(game: Game, terrain: Terrain, player: Player, noise: Seq<i32>) -> bool {
    let eased = terrain.offsets_after_easing(player.state);
    let under = unit_after_scroll(terrain);
    &&& terrain.refill_due() ==> noise.len() == terrain.config.lookahead && heights_fit(
        terrain.vec@.last(),
        noise.len(),
    )
    &&& terrain.easing_fits(player.state)
    &&& player.tick_fits(
        (TickInput {
            iy: terrain.config.baseline_row,
            unit: under@,
            offset_y: eased.0 as i32,
            roffset_y: eased.1 as i32,
            max_air_time: game.max_air_time,
        }),
    )
    &&& i32::MIN <= eased.1 + under.unit_type.slope() <= i32::MAX
    &&& game.score < u32::MAX
}

/// The unit that the next scroll step brings under the player: the one
/// right of the player's column.
pub open spec fn unit_after_scroll(terrain: Terrain) -> TerrainUnit {
    terrain.vec[terrain.config.player_column + 1]
}

/// Whether a tick would move the world on.
pub fn will_advance(game: &Game, player: &Player) -> (moves: bool)
    ensures
        moves == tick_advances(*game, *player),
{
    player.state != PlayerState::Idle && player.state != PlayerState::Dead && !game.pause
}

/// Applies one input event.
pub fn handle_input(game: &mut Game, player: &mut Player, terrain: &Terrain, event: InputEvent)
    requires
        terrain.covers_screen(),
    ensures
        *final(game) == game_after_input(*old(game), *old(player), event),
        *final(player) == player_after_input(
            *old(game),
            *old(player),
            terrain.vec[terrain.config.player_column as int].unit_type,
            event,
        ),
{
    match event {
        InputEvent::Quit => {
            game.playing = false;
        },
        InputEvent::Jump => {
            if player.state == PlayerState::Idle {
                player.state = PlayerState::Running;
            } else if !game.pause {
                player.jump(terrain.unit_at_player_column().unit_type);
            }
        },
        InputEvent::TogglePause => {
            if player.state == PlayerState::Idle {
                player.state = PlayerState::Running;
            } else if player.state != PlayerState::Dead {
                game.pause = !game.pause;
            }
        },
    }
}

/// The picture of the world as it stands.
pub fn snapshot(terrain: &Terrain, player: &Player, game: &Game) -> (snap: Snapshot)
    requires
        terrain.covers_screen(),
    ensures
        shows(snap, *terrain, *player, *game),
{
    let width: u16 = terrain.config.visible_width;
    let mut units: Vec<VisibleUnit> = Vec::new();
    let mut j: u16 = 0;
    while j < width
        invariant
            terrain.covers_screen(),
            width == terrain.config.visible_width,
            j <= width,
            units.len() == j,
            forall|k: int|
                0 <= k < j ==> {
                    let shown = #[trigger] units[k];
                    &&& shown.row == terrain.vec[k].initial_y + terrain.offset_y
                    &&& shown.column == k
                    &&& shown.tiles == terrain.vec[k].tiles
                    &&& shown.obstacle == terrain.vec[k].obstacle
                },
        decreases width - j,
    {
        let unit = terrain.vec[j as usize];
        units.push(
            VisibleUnit {
                row: unit.initial_y as i64 + terrain.offset_y as i64,
                column: j,
                tiles: unit.tiles,
                obstacle: unit.obstacle,
            },
        );
        j = j + 1;
    }
    Snapshot {
        units,
        player_row: player.y_pos,
        player_column: terrain.config.player_column,
        score: game.score,
        highscore: game.highscore,
    }
}

/// Whether `tick` may be called on this state with these noise samples:
/// game and terrain are well formed, and a tick that moves the world on
/// fits.
pub fn can_tick(game: &Game, terrain: &Terrain, player: &Player, noise: &Vec<i32>) -> (ok: bool)
    ensures
        ok == (game.wf() && terrain.wf() && (tick_advances(*game, *player) ==> tick_fits(
            *game,
            *terrain,
            *player,
            noise@,
        ))),
{
    if !game.is_wf() || !terrain.is_wf() {
        return false;
    }
    if !will_advance(game, player) {
        return true;
    }
    if terrain.regeneration_due() {
        let n = noise.len();
        if n != terrain.config.lookahead as usize {
            return false;
        }
        let last = terrain.vec[terrain.vec.len() - 1].initial_y as i64;
        if !(i32::MIN as i64 + (n as i64) < last && last < i32::MAX as i64 - n as i64) {
            return false;
        }
    }
    let running = player.state == PlayerState::Running;
    let mut pending: i64 = terrain.roffset_y as i64;
    if running && pending > 0 {
        if terrain.offset_y == i32::MAX {
            return false;
        }
        pending = pending - 1;
    } else if running && pending < 0 {
        if terrain.offset_y == i32::MIN {
            return false;
        }
        pending = pending + 1;
    }
    let under = terrain.vec[terrain.config.player_column as usize + 1];
    let owed: i64 = pending + under.unit_type.delta() as i64;
    if owed < i32::MIN as i64 || owed > i32::MAX as i64 {
        return false;
    }
    let ground: i64 = terrain.config.baseline_row as i64 - pending;
    let ground_fits = i32::MIN as i64 <= ground && ground <= i32::MAX as i64;
    let player_fits = match player.state {
        PlayerState::Jumping => player.y_pos > i32::MIN && player.air_dist < i32::MAX,
        PlayerState::MaxHeight => player.y_pos as i64 >= ground || player.air_dist < i32::MAX,
        PlayerState::Falling => player.y_pos as i64 >= ground || player.y_pos < i32::MAX,
        PlayerState::Running => (player.remember_jump && under.unit_type != TerrainType::Up)
            || ground_fits,
        PlayerState::Idle => ground_fits,
        PlayerState::Dead => true,
    };
    player_fits && game.score < u32::MAX
}

/// One tick. Unless the player waits, the game is paused or the player is
/// dead, the world moves on in a fixed order: the terrain scrolls and
/// eases its offset, the player moves and is tested for a collision, the
/// picture is taken, and then the pending offset takes up the slope under
/// the player and the difficulty advances.
pub fn tick(game: &mut Game, terrain: &mut Terrain, player: &mut Player, noise: &Vec<i32>) -> (out:
    TickOutcome)
    requires
        old(game).wf(),
        old(terrain).wf(),
        tick_advances(*old(game), *old(player)) ==> tick_fits(
            *old(game),
            *old(terrain),
            *old(player),
            noise@,
        ),
    ensures
        final(game).wf(),
        final(terrain).wf(),
        out is Waiting <==> old(player).state == PlayerState::Idle,
        out is Dead <==> old(player).state == PlayerState::Dead,
        out is Paused <==> old(game).pause && old(player).state != PlayerState::Idle && old(
            player,
        ).state != PlayerState::Dead,
        !(out is Advanced) ==> {
            &&& *final(game) == *old(game)
            &&& *final(terrain) == *old(terrain)
            &&& *final(player) == *old(player)
        },
        out matches TickOutcome::Advanced(snap) ==> {
            let eased = old(terrain).offsets_after_easing(old(player).state);
            let under = final(terrain).vec[final(terrain).config.player_column as int];
            &&& final(terrain).scrolled(*old(terrain), noise@)
            &&& final(terrain).offset_y == eased.0
            &&& final(terrain).roffset_y == eased.1 + under.unit_type.slope()
            &&& *final(player) == old(player).after_tick(
                (TickInput {
                    iy: old(terrain).config.baseline_row,
                    unit: under@,
                    offset_y: eased.0 as i32,
                    roffset_y: eased.1 as i32,
                    max_air_time: old(game).max_air_time,
                }),
            )
            &&& *final(game) == old(game).after_speed_update().after_score_update()
            &&& shows(
                snap,
                (Terrain { roffset_y: eased.1 as i32, ..*final(terrain) }),
                *final(player),
                *old(game),
            )
        },
{
    if player.state == PlayerState::Idle {
        return TickOutcome::Waiting;
    }
    if game.pause {
        if player.state == PlayerState::Dead {
            return TickOutcome::Dead;
        }
        return TickOutcome::Paused;
    }
    if player.state == PlayerState::Dead {
        return TickOutcome::Dead;
    }
    terrain.scroll_terrain(noise);
    let ghost rolls = choose|rolls: Seq<Targets>|
        rolls.len() == noise.len() && rolls_within(terrain.config, rolls)
            && #[trigger] terrain.grown(
            old(terrain).vec@.skip(1),
            old(terrain).state,
            noise@,
            rolls,
        );
    proof {
        let px = terrain.config.player_column as int;
        if old(terrain).refill_due() {
            assert(terrain.vec@.subrange(0, old(terrain).vec.len() - 1)[px] == terrain.vec[px]);
        }
        assert(terrain.vec[px] == unit_after_scroll(*old(terrain)));
    }
    terrain.offset(player);
    let under = terrain.unit_at_player_column();
    player.update_pos(
        terrain.config.baseline_row,
        &under,
        terrain.offset_y,
        terrain.roffset_y,
        game.max_air_time,
    );
    let snap = snapshot(terrain, player, game);
    terrain.roffset();
    game.update_speed();
    game.update_score();
    assert(old(terrain).refill_due() ==> terrain.grown(
        old(terrain).vec@.skip(1),
        old(terrain).state,
        noise@,
        rolls,
    ));
    TickOutcome::Advanced(snap)
}

} // verus!
