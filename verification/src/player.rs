//! The player's vertical motion: a state machine that is advanced once per
//! tick and that ends in `Dead` on the tick of a collision.

use vstd::prelude::*;
use crate::config::{Config, ConfigError};
use crate::terrain::{TerrainType, TerrainUnit, UnitView};

verus! {

#[derive(Copy, Clone, Debug, PartialEq, Eq, Structural)]
pub enum PlayerState {
    Idle,
    Running,
    Jumping,
    MaxHeight,
    Falling,
    Dead,
}

#[derive(Copy, Clone, Debug, PartialEq, Eq, Structural)]
pub struct Player {
    /// Screen row of the player.
    pub y_pos: i32,
    /// Ticks spent in the air since the jump began.
    pub air_dist: i32,
    pub state: PlayerState,
    /// A jump was asked for over a climbing unit and waits for flat ground.
    pub remember_jump: bool,
    /// Ticks a jump climbs before it hangs at its highest row.
    pub ascent_dist: i32,
}

/// What one tick shows the player: the baseline row, the unit under the
/// player, the terrain's settled and pending offsets, and the air time
/// that the difficulty allows.
pub struct TickInput {
    pub iy: i32,
    pub unit: UnitView,
    pub offset_y: i32,
    pub roffset_y: i32,
    pub max_air_time: i32,
}

impl Player {
    /// The player as a jump request leaves it: over a climbing unit the
    /// request is only remembered; elsewhere a running player takes off.
    pub open spec fn after_jump(self, t: TerrainType) -> Player {
        if t == TerrainType::Up {
            Player { remember_jump: true, ..self }
        } else if self.state == PlayerState::Running {
            Player { state: PlayerState::Jumping, ..self }
        } else {
            self
        }
    }

    /// The row at which the ground holds the player.
    pub open spec fn ground_row(iy: i32, roffset_y: i32) -> int {
        iy - roffset_y
    }

    /// A remembered jump takes off on this tick: the player runs, and the
    /// unit under it does not climb.
    pub open spec fn fires(self, unit: UnitView) -> bool {
        self.state == PlayerState::Running && self.remember_jump && unit.unit_type
            != TerrainType::Up
    }

    /// The player after the motion of one tick, before the collision test.
    pub open spec fn moved(self, i: TickInput) -> Player {
        let ground = Self::ground_row(i.iy, i.roffset_y);
        match self.state {
            PlayerState::Jumping => {
                let y = self.y_pos - 1;
                let air = self.air_dist + 1;
                Player {
                    y_pos: y as i32,
                    air_dist: air as i32,
                    state: if y >= ground {
                        PlayerState::Running
                    } else if air == self.ascent_dist {
                        PlayerState::MaxHeight
                    } else {
                        PlayerState::Jumping
                    },
                    ..self
                }
            },
            PlayerState::MaxHeight => {
                if self.y_pos >= ground {
                    Player { state: PlayerState::Running, air_dist: 0, ..self }
                } else {
                    Player {
                        air_dist: (self.air_dist + 1) as i32,
                        state: if self.air_dist + 1 == i.max_air_time {
                            PlayerState::Falling
                        } else {
                            PlayerState::MaxHeight
                        },
                        ..self
                    }
                }
            },
            PlayerState::Falling => {
                if self.y_pos >= ground {
                    Player { state: PlayerState::Running, air_dist: 0, ..self }
                } else {
                    Player { y_pos: (self.y_pos + 1) as i32, ..self }
                }
            },
            PlayerState::Idle | PlayerState::Running => {
                if self.fires(i.unit) {
                    Player { state: PlayerState::Jumping, remember_jump: false, ..self }
                } else {
                    Player { y_pos: ground as i32, ..self }
                }
            },
            PlayerState::Dead => self,
        }
    }

    /// The player shares its row with an obstacle on the unit under it.
    pub open spec fn collides(self, unit: UnitView, offset_y: i32) -> bool {
        unit.obstacle && self.y_pos == unit.height + offset_y
    }

    /// The player after one tick: the motion, then death on a collision,
    /// whatever the motion decided.
    pub open spec fn after_tick(self, i: TickInput) -> Player {
        let m = self.moved(i);
        if m.collides(i.unit, i.offset_y) {
            Player { state: PlayerState::Dead, ..m }
        } else {
            m
        }
    }

    /// The player after the first `k` of the given ticks.
    pub open spec fn after_ticks(self, inputs: Seq<TickInput>, k: nat) -> Player
        decreases k,
    {
        if k == 0 {
            self
        } else {
            self.after_ticks(inputs, (k - 1) as nat).after_tick(inputs[k - 1])
        }
    }

    /// What this tick computes fits the machine's integers: the row and
    /// the air counter of a rising jump, the air counter or the row of a
    /// player that stays in the air, and the ground row where the player is
    /// set on it.
    pub open spec fn tick_fits(self, i: TickInput) -> bool {
        let ground = Self::ground_row(i.iy, i.roffset_y);
        match self.state {
            PlayerState::Jumping => self.y_pos > i32::MIN && self.air_dist < i32::MAX,
            PlayerState::MaxHeight => self.y_pos >= ground || self.air_dist < i32::MAX,
            PlayerState::Falling => self.y_pos >= ground || self.y_pos < i32::MAX,
            PlayerState::Idle | PlayerState::Running => self.fires(i.unit) || i32::MIN <= ground
                <= i32::MAX,
            PlayerState::Dead => true,
        }
    }

    /// An idle player on the baseline row of a valid configuration.
    pub fn new(cfg: &Config) -> (res: Result<Player, ConfigError>)
        ensures
            res is Ok <==> cfg.valid(),
            res matches Err(e) ==> cfg.rejection() == Some(e),
            res matches Ok(p) ==> p == (Player {
                y_pos: cfg.baseline_row,
                air_dist: 0,
                state: PlayerState::Idle,
                remember_jump: false,
                ascent_dist: cfg.ascent_dist as i32,
            }),
    {
        match cfg.validate() {
            Err(e) => Err(e),
            Ok(_) => Ok(
                Player {
                    y_pos: cfg.baseline_row,
                    air_dist: 0,
                    state: PlayerState::Idle,
                    remember_jump: false,
                    ascent_dist: cfg.ascent_dist as i32,
                },
            ),
        }
    }

    /// Asks for a jump while `t` is the slope of the unit under the player.
    pub fn jump(&mut self, t: TerrainType)
        ensures
            *final(self) == old(self).after_jump(t),
    {
        if t == TerrainType::Up {
            self.remember_jump = true;
        } else if self.state == PlayerState::Running {
            self.state = PlayerState::Jumping;
        }
    }

    /// Advances the player by one tick over `current_unit`.
    pub fn update_pos(
        &mut self,
        iy: i32,
        current_unit: &TerrainUnit,
        offset_y: i32,
        roffset_y: i32,
        max_air_time: i32,
    )
        requires
            old(self).tick_fits(
                (TickInput { iy, unit: current_unit@, offset_y, roffset_y, max_air_time }),
            ),
        ensures
            *final(self) == old(self).after_tick(
                (TickInput { iy, unit: current_unit@, offset_y, roffset_y, max_air_time }),
            ),
            final(self).state == PlayerState::Dead <==> old(self).state == PlayerState::Dead
                || final(self).collides(current_unit@, offset_y),
            final(self).remember_jump == (old(self).remember_jump && !old(self).fires(
                current_unit@,
            )),
    {
        let ground: i64 = iy as i64 - roffset_y as i64;
        match self.state {
            PlayerState::Jumping => {
                self.y_pos = self.y_pos - 1;
                self.air_dist = self.air_dist + 1;
                if self.air_dist == self.ascent_dist {
                    self.state = PlayerState::MaxHeight;
                }
                if self.y_pos as i64 >= ground {
                    self.state = PlayerState::Running;
                }
            },
            PlayerState::MaxHeight => {
                if self.y_pos as i64 >= ground {
                    self.state = PlayerState::Running;
                    self.air_dist = 0;
                } else {
                    self.air_dist = self.air_dist + 1;
                    if self.air_dist == max_air_time {
                        self.state = PlayerState::Falling;
                    }
                }
            },
            PlayerState::Falling => {
                if self.y_pos as i64 >= ground {
                    self.state = PlayerState::Running;
                    self.air_dist = 0;
                } else {
                    self.y_pos = self.y_pos + 1;
                }
            },
            PlayerState::Running => {
                if self.remember_jump && current_unit.unit_type != TerrainType::Up {
                    self.state = PlayerState::Jumping;
                    self.remember_jump = false;
                } else {
                    self.y_pos = iy - roffset_y;
                }
            },
            PlayerState::Idle => {
                self.y_pos = iy - roffset_y;
            },
            PlayerState::Dead => {},
        }
        if current_unit.obstacle && self.y_pos as i64 == current_unit.initial_y as i64
            + offset_y as i64 {
            self.state = PlayerState::Dead;
        }
    }
}

/// A jump asked for over a climbing unit is remembered, and a running
/// player keeps running with it while the units under it climb. On the
/// first tick over a unit that does not climb the remembered jump is spent:
/// the player takes off, or dies if it collides on that very tick.
pub proof fn lemma_remembered_jump_fires_on_first_flat(
    p: Player,
    inputs: Seq<TickInput>,
    k: nat,
)
    requires
        p.state == PlayerState::Running,
        k < inputs.len(),
        forall|i: int|
            0 <= i < k ==> (#[trigger] inputs[i]).unit.unit_type == TerrainType::Up
                && !inputs[i].unit.obstacle,
        inputs[k as int].unit.unit_type != TerrainType::Up,
    ensures
        p.after_jump(TerrainType::Up).remember_jump,
        forall|i: nat|
            i <= k ==> {
                let q = #[trigger] p.after_jump(TerrainType::Up).after_ticks(inputs, i);
                q.state == PlayerState::Running && q.remember_jump
            },
        ({
            let q = p.after_jump(TerrainType::Up).after_ticks(inputs, k + 1);
            let before = p.after_jump(TerrainType::Up).after_ticks(inputs, k);
            &&& !q.remember_jump
            &&& q.state == if before.collides(inputs[k as int].unit, inputs[k as int].offset_y) {
                PlayerState::Dead
            } else {
                PlayerState::Jumping
            }
        }),
{
    let start = p.after_jump(TerrainType::Up);
    assert forall|i: nat| i <= k implies {
        let q = #[trigger] start.after_ticks(inputs, i);
        q.state == PlayerState::Running && q.remember_jump
    } by {
        lemma_waits_while_climbing(start, inputs, k, i);
    }
    lemma_waits_while_climbing(start, inputs, k, k);
    assert(start.after_ticks(inputs, k + 1) == start.after_ticks(inputs, k).after_tick(
        inputs[k as int],
    ));
}

proof fn lemma_waits_while_climbing(start: Player, inputs: Seq<TickInput>, k: nat, i: nat)
    requires
        start.state == PlayerState::Running,
        start.remember_jump,
        k < inputs.len(),
        i <= k,
        forall|j: int|
            0 <= j < k ==> (#[trigger] inputs[j]).unit.unit_type == TerrainType::Up
                && !inputs[j].unit.obstacle,
    ensures
        start.after_ticks(inputs, i).state == PlayerState::Running,
        start.after_ticks(inputs, i).remember_jump,
    decreases i,
{
    if i > 0 {
        lemma_waits_while_climbing(start, inputs, k, (i - 1) as nat);
        assert(inputs[i - 1].unit.unit_type == TerrainType::Up);
    }
}

/// A player in the air at or above its ground row runs again only from
/// that row: it was on the ground row before the tick, it still is, and
/// its air counter is back at zero.
pub proof fn lemma_lands_only_on_the_ground_row(p: Player, i: TickInput)
    requires
        p.state == PlayerState::Jumping || p.state == PlayerState::MaxHeight || p.state
            == PlayerState::Falling,
        p.y_pos <= Player::ground_row(i.iy, i.roffset_y),
        p.tick_fits(i),
    ensures
        p.after_tick(i).state == PlayerState::Running ==> {
            &&& p.y_pos == Player::ground_row(i.iy, i.roffset_y)
            &&& p.after_tick(i).y_pos == p.y_pos
            &&& p.after_tick(i).air_dist == 0
        },
{
}

} // verus!
