//! The terrain generator: one unit at a time from a noise sample, the
//! unit before it and a handful of counters.

use vstd::prelude::*;
use crate::config::Config;
use crate::terrain::{unit_views, TerrainType, TerrainUnit, UnitView};

verus! {

/// A pair of freshly drawn obstacle targets.
#[derive(Copy, Clone, Debug, PartialEq, Eq, Structural)]
pub struct Targets {
    /// How many units the next obstacle run is to cover.
    pub length: u32,
    /// How many obstacle-free units must pass before the next run.
    pub distance: u32,
}

/// The counters the generator carries from one unit to the next, and from
/// one call to the next.
#[derive(Copy, Clone, Debug, PartialEq, Eq, Structural)]
pub struct GenState {
    /// Flat units since the last slope. Stops counting at `u32::MAX`.
    pub last_incl_dist: u32,
    /// Units since the last obstacle run ended. Stops counting at `u32::MAX`.
    pub last_obst_dist: u32,
    /// Length so far of the obstacle run being laid, zero outside a run.
    pub obst_len: u32,
    /// Length the current or next obstacle run is to reach.
    pub next_obst_len: u32,
    /// Distance that `last_obst_dist` must exceed before a run may start.
    pub next_obst_dist: u32,
}

/// Where a generation stands: the counters, and the unit generated last.
pub struct Cursor {
    pub state: GenState,
    pub last: UnitView,
}

impl Targets {
    /// Both targets lie in the ranges the configuration draws them from.
    pub open spec fn within(self, cfg: Config) -> bool {
        &&& cfg.min_obst_length <= self.length < cfg.max_obst_length
        &&& cfg.min_obst_dist <= self.distance < cfg.max_obst_dist
    }
}

/// Every entry of `rolls` lies in the configured ranges.
pub open spec fn rolls_within(cfg: Config, rolls: Seq<Targets>) -> bool {
    forall|i: int| 0 <= i < rolls.len() ==> (#[trigger] rolls[i]).within(cfg)
}

/// A distance counter one step on.
pub open spec fn count_up(c: u32) -> u32 {
    if c < u32::MAX {
        (c + 1) as u32
    } else {
        c
    }
}

/// The slope of the unit that follows `last` on the given noise sample: a
/// low sample descends and a high one climbs, unless the unit before
/// slopes the other way or carries an obstacle.
pub open spec fn classify(cfg: Config, last: UnitView, noise: i32) -> TerrainType {
    if noise <= cfg.min_flat && last.unit_type != TerrainType::Up && !last.obstacle {
        TerrainType::Down
    } else if noise >= cfg.max_flat && last.unit_type != TerrainType::Down && !last.obstacle {
        TerrainType::Up
    } else {
        TerrainType::Flat
    }
}

/// A flat unit generated in this state carries an obstacle.
pub open spec fn spawns(cfg: Config, st: GenState) -> bool {
    &&& st.last_obst_dist > st.next_obst_dist
    &&& st.last_incl_dist > cfg.min_incl_dist
    &&& st.obst_len < st.next_obst_len
}

/// The height of the unit of slope `kind` that follows `last`: a climb
/// lies one row above the unit before it, which is one less; a descent one
/// row below, which is one more; a flat unit keeps the height.
pub open spec fn next_height(last: UnitView, kind: TerrainType) -> int {
    match kind {
        TerrainType::Up => last.height - 1,
        TerrainType::Down => last.height + 1,
        TerrainType::Flat => last.height,
    }
}

/// The unit generated next.
pub open spec fn next_unit(cfg: Config, c: Cursor, noise: i32) -> UnitView {
    let kind = classify(cfg, c.last, noise);
    UnitView {
        unit_type: kind,
        height: next_height(c.last, kind),
        obstacle: kind == TerrainType::Flat && spawns(cfg, c.state),
    }
}

/// The counters after the next unit. `roll` replaces both targets when, on
/// a flat unit, the run that was being laid has reached its length.
pub open spec fn next_state(cfg: Config, c: Cursor, noise: i32, roll: Targets) -> GenState {
    let st = c.state;
    if classify(cfg, c.last, noise) != TerrainType::Flat {
        GenState {
            last_incl_dist: 0,
            last_obst_dist: if st.obst_len != 0 { 0 } else { count_up(st.last_obst_dist) },
            ..st
        }
    } else if spawns(cfg, st) {
        GenState {
            last_incl_dist: count_up(st.last_incl_dist),
            last_obst_dist: count_up(st.last_obst_dist),
            obst_len: (st.obst_len + 1) as u32,
            ..st
        }
    } else if st.obst_len == st.next_obst_len {
        GenState {
            last_incl_dist: count_up(st.last_incl_dist),
            last_obst_dist: 1,
            obst_len: 0,
            next_obst_len: roll.length,
            next_obst_dist: roll.distance,
        }
    } else {
        GenState {
            last_incl_dist: count_up(st.last_incl_dist),
            last_obst_dist: count_up(st.last_obst_dist),
            ..st
        }
    }
}

/// One generation step.
pub open spec fn advance(cfg: Config, c: Cursor, noise: i32, roll: Targets) -> Cursor {
    Cursor { state: next_state(cfg, c, noise, roll), last: next_unit(cfg, c, noise) }
}

/// Where the generation that starts at `start` stands after `k` units,
/// the `i`-th of them made from `noise[i]` and `rolls[i]`.
pub open spec fn cursor_after(
    cfg: Config,
    start: Cursor,
    noise: Seq<i32>,
    rolls: Seq<Targets>,
    k: nat,
) -> Cursor
    decreases k,
{
    if k == 0 {
        start
    } else {
        advance(
            cfg,
            cursor_after(cfg, start, noise, rolls, (k - 1) as nat),
            noise[k - 1],
            rolls[k - 1],
        )
    }
}

/// The units generated from `start`, one for each noise sample.
pub open spec fn generated(
    cfg: Config,
    start: Cursor,
    noise: Seq<i32>,
    rolls: Seq<Targets>,
) -> Seq<UnitView> {
    Seq::new(noise.len(), |i: int| cursor_after(cfg, start, noise, rolls, (i + 1) as nat).last)
}

/// Generates the unit that follows `last` and moves the counters on.
pub fn step(cfg: &Config, state: &mut GenState, last: &TerrainUnit, noise: i32, roll: Targets) -> (unit: TerrainUnit)
    requires
        i32::MIN <= next_height(last@, classify(*cfg, last@, noise)) <= i32::MAX,
    ensures
        unit@ == next_unit(*cfg, (Cursor { state: *old(state), last: last@ }), noise),
        *final(state) == next_state(*cfg, (Cursor { state: *old(state), last: last@ }), noise, roll),
        unit.has_ground_tiles(),
{
    let blocked = last.obstacle;
    let y = last.initial_y;
    if noise <= cfg.min_flat && last.unit_type != TerrainType::Up && !blocked {
        state.last_obst_dist = if state.obst_len != 0 {
            0
        } else {
            state.last_obst_dist.saturating_add(1)
        };
        state.last_incl_dist = 0;
        TerrainUnit::new_down(y + 1)
    } else if noise >= cfg.max_flat && last.unit_type != TerrainType::Down && !blocked {
        state.last_obst_dist = if state.obst_len != 0 {
            0
        } else {
            state.last_obst_dist.saturating_add(1)
        };
        state.last_incl_dist = 0;
        TerrainUnit::new_up(y - 1)
    } else {
        let mut spawn_obst = false;
        if state.last_obst_dist > state.next_obst_dist && state.last_incl_dist > cfg.min_incl_dist
            && state.obst_len < state.next_obst_len {
            spawn_obst = true;
            state.obst_len = state.obst_len + 1;
        } else if state.obst_len == state.next_obst_len {
            state.obst_len = 0;
            state.last_obst_dist = 0;
            state.next_obst_len = roll.length;
            state.next_obst_dist = roll.distance;
        }
        state.last_obst_dist = state.last_obst_dist.saturating_add(1);
        state.last_incl_dist = state.last_incl_dist.saturating_add(1);
        TerrainUnit::new_flat(y, spawn_obst)
    }
}

/// The heights a generation of `n` units from `pred` can reach fit the
/// machine's integers.
pub open spec fn heights_fit(pred: TerrainUnit, n: nat) -> bool {
    i32::MIN + n < pred.initial_y < i32::MAX - n
}

/// Generates one unit for each noise sample, the first of them after
/// `pred`. The result is a function of the arguments alone: the same
/// counters, predecessor, samples and rolls give the same terrain.
pub fn generate(
    cfg: &Config,
    state: &mut GenState,
    pred: &TerrainUnit,
    noise: &Vec<i32>,
    rolls: &Vec<Targets>,
) -> (units: Vec<TerrainUnit>)
    requires
        noise.len() == rolls.len(),
        heights_fit(*pred, noise.len() as nat),
    ensures
        units.len() == noise.len(),
        unit_views(units@) == generated(
            *cfg,
            (Cursor { state: *old(state), last: pred@ }),
            noise@,
            rolls@,
        ),
        *final(state) == cursor_after(
            *cfg,
            (Cursor { state: *old(state), last: pred@ }),
            noise@,
            rolls@,
            noise.len() as nat,
        ).state,
        forall|i: int| 0 <= i < units.len() ==> (#[trigger] units[i]).has_ground_tiles(),
{
    let ghost start = Cursor { state: *state, last: pred@ };
    let n = noise.len();
    let mut units: Vec<TerrainUnit> = Vec::new();
    let mut last: TerrainUnit = *pred;
    let mut i: usize = 0;
    while i < n
        invariant
            n == noise.len(),
            n == rolls.len(),
            i <= n,
            units.len() == i,
            heights_fit(*pred, n as nat),
            pred.initial_y - i <= last.initial_y <= pred.initial_y + i,
            (Cursor { state: *state, last: last@ }) == cursor_after(
                *cfg,
                start,
                noise@,
                rolls@,
                i as nat,
            ),
            forall|j: int|
                0 <= j < i ==> (#[trigger] units[j])@ == cursor_after(
                    *cfg,
                    start,
                    noise@,
                    rolls@,
                    (j + 1) as nat,
                ).last,
            forall|j: int| 0 <= j < i ==> (#[trigger] units[j]).has_ground_tiles(),
        decreases n - i,
    {
        let unit = step(cfg, state, &last, noise[i], rolls[i]);
        units.push(unit);
        last = unit;
        i = i + 1;
    }
    assert(unit_views(units@) =~= generated(*cfg, start, noise@, rolls@));
    units
}

} // verus!
