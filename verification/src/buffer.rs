//! The terrain buffer: a sliding window of units that scrolls under the
//! player, refills itself by chunks, and carries the vertical offsets.

use vstd::prelude::*;
use crate::config::{Config, ConfigError};
use crate::generator::{
    cursor_after, generate, generated, heights_fit, rolls_within, Cursor, GenState, Targets,
};
use crate::player::{Player, PlayerState};
use crate::rng::TargetSource;
use crate::terrain::{marker_tiles, unit_views, TerrainType, TerrainUnit, UnitView};
use crate::terrain_shape::{
    cursor_ok, follows, lemma_chunking_is_invisible, lemma_cursor_stays_ok,
    lemma_each_unit_follows, lemma_obstacles_stand_on_flat, lemma_slope_never_reverses_at_once,
};

verus! {

#[derive(Debug)]
pub struct Terrain {
    /// The window of units, leftmost first.
    pub vec: Vec<TerrainUnit>,
    /// Height already applied to every row of the terrain.
    pub offset_y: i32,
    /// Height owed by the slopes that passed under the player, released one
    /// row per tick while the player runs.
    pub roffset_y: i32,
    /// The generator's counters after the last unit of `vec`.
    pub state: GenState,
    /// Scroll steps since the last refill.
    pub screen_dist: u16,
    pub config: Config,
    pub source: TargetSource,
}

/// An obstacle on this unit stands on flat ground.
pub open spec fn obstacle_on_flat(u: UnitView) -> bool {
    u.obstacle ==> u.unit_type == TerrainType::Flat
}

/// The unit at position `i` does not reverse the slope of the unit before
/// it.
pub open spec fn joins(units: Seq<UnitView>, i: int) -> bool {
    !units[i - 1].unit_type.opposes(units[i].unit_type)
}

/// No obstacle stands on a slope, and no slope is followed at once by one
/// of the opposite direction.
pub open spec fn ground_ok(units: Seq<UnitView>) -> bool {
    &&& forall|i: int| 0 <= i < units.len() ==> obstacle_on_flat(#[trigger] units[i])
    &&& forall|i: int| 0 < i < units.len() ==> #[trigger] joins(units, i)
}

/// The unit at position `k` follows the unit before it.
pub open spec fn follows_at(units: Seq<TerrainUnit>, k: int) -> bool {
    follows(units[k - 1]@, units[k]@)
}

/// The view of flat, obstacle-free ground at row `iy`.
pub open spec fn plain_ground(iy: i32) -> UnitView {
    UnitView { unit_type: TerrainType::Flat, height: iy as int, obstacle: false }
}

impl Terrain {
    /// Where the generator stands: its counters and the last unit of the
    /// window.
    pub open spec fn cursor(self) -> Cursor {
        Cursor { state: self.state, last: self.vec@.last()@ }
    }

    /// The window can be extended: it is not empty, its units obey the
    /// rules of the ground, and the counters agree with its last unit.
    pub open spec fn gen_ok(self) -> bool {
        &&& self.config.valid()
        &&& self.vec.len() > 0
        &&& cursor_ok(self.config, self.cursor())
        &&& ground_ok(unit_views(self.vec@))
    }

    /// The buffer is well formed: it can be extended, and it holds what is
    /// left of a window of visible width plus lookahead after the scroll
    /// steps since the last refill.
    pub open spec fn wf(self) -> bool {
        &&& self.gen_ok()
        &&& self.screen_dist < self.config.lookahead
        &&& self.vec.len() + self.screen_dist == self.config.visible_width
            + self.config.lookahead
    }

    /// The buffer reaches over the visible width, and so over the player's
    /// column.
    pub open spec fn covers_screen(self) -> bool {
        &&& self.config.player_column < self.config.visible_width
        &&& self.config.visible_width <= self.vec.len()
    }

    /// The next scroll step refills the buffer.
    pub open spec fn refill_due(self) -> bool {
        self.screen_dist + 1 == self.config.lookahead
    }

    /// The buffer as construction leaves it: flat, obstacle-free ground at
    /// the baseline row, one unit after the visible width marked, no offset
    /// and all counters at zero.
    pub open spec fn is_fresh(self) -> bool {
        &&& self.vec.len() == self.config.visible_width + self.config.lookahead
        &&& forall|i: int|
            0 <= i < self.vec.len() ==> (#[trigger] self.vec[i])@ == plain_ground(
                self.config.baseline_row,
            )
        &&& forall|i: int|
            0 <= i < self.vec.len() && i != self.config.visible_width ==> (
            #[trigger] self.vec[i]).has_ground_tiles()
        &&& self.vec[self.config.visible_width as int].tiles@ == marker_tiles()
        &&& self.offset_y == 0
        &&& self.roffset_y == 0
        &&& self.screen_dist == 0
        &&& self.state.last_incl_dist == 0
        &&& self.state.last_obst_dist == 0
        &&& self.state.obst_len == 0
    }

    /// This buffer holds `kept` followed by the units generated after it
    /// from `noise` and `rolls`, and its counters are those the generation
    /// ends with.
    pub open spec fn grown(
        self,
        kept: Seq<TerrainUnit>,
        state: GenState,
        noise: Seq<i32>,
        rolls: Seq<Targets>,
    ) -> bool {
        let start = Cursor { state, last: kept.last()@ };
        &&& self.vec.len() == kept.len() + noise.len()
        &&& self.vec@.subrange(0, kept.len() as int) == kept
        &&& unit_views(self.vec@.subrange(kept.len() as int, self.vec.len() as int)) == generated(
            self.config,
            start,
            noise,
            rolls,
        )
        &&& forall|i: int|
            kept.len() <= i < self.vec.len() ==> (#[trigger] self.vec[i]).has_ground_tiles()
        &&& self.state == cursor_after(self.config, start, noise, rolls, noise.len()).state
    }

    /// This buffer is what one scroll step makes of `before`: the leftmost
    /// unit has left; and where a refill was due, a chunk generated from
    /// `noise` and some rolls within the configured ranges has been
    /// appended and the step counter starts again.
    pub open spec fn scrolled(self, before: Terrain, noise: Seq<i32>) -> bool {
        &&& self.config == before.config
        &&& !before.refill_due() ==> {
            &&& self.vec@ == before.vec@.skip(1)
            &&& self.state == before.state
            &&& self.screen_dist == before.screen_dist + 1
        }
        &&& before.refill_due() ==> {
            &&& self.screen_dist == 0
            &&& exists|rolls: Seq<Targets>|
                rolls.len() == noise.len() && rolls_within(before.config, rolls)
                    && #[trigger] self.grown(before.vec@.skip(1), before.state, noise, rolls)
        }
    }

    /// The terrain after the offset step of a tick in which the player is
    /// in state `s`: while the player runs, one row of the pending offset
    /// is settled.
    pub open spec fn offsets_after_easing(self, s: PlayerState) -> (int, int) {
        if s == PlayerState::Running && self.roffset_y > 0 {
            (self.offset_y + 1, self.roffset_y - 1)
        } else if s == PlayerState::Running && self.roffset_y < 0 {
            (self.offset_y - 1, self.roffset_y + 1)
        } else {
            (self.offset_y as int, self.roffset_y as int)
        }
    }

    /// The offset step of a tick in which the player is in state `s` fits
    /// the machine's integers: where a row is settled, the settled offset
    /// has room for it.
    pub open spec fn easing_fits(self, s: PlayerState) -> bool {
        &&& s == PlayerState::Running && self.roffset_y > 0 ==> self.offset_y < i32::MAX
        &&& s == PlayerState::Running && self.roffset_y < 0 ==> self.offset_y > i32::MIN
    }

    /// The pending offset has room for the slope of the unit under the
    /// player.
    pub open spec fn slope_fits(self) -> bool {
        i32::MIN <= self.roffset_y + self.vec[self.config.player_column as int].unit_type.slope()
            <= i32::MAX
    }

    /// A fresh buffer for a valid configuration, with a random source that
    /// is seeded with `seed`.
    pub fn new(cfg: Config, seed: u64) -> (res: Result<Terrain, ConfigError>)
        ensures
            res is Ok <==> cfg.valid(),
            res matches Err(e) ==> cfg.rejection() == Some(e),
            res matches Ok(t) ==> t.config == cfg && t.is_fresh() && t.wf(),
    {
        match cfg.validate() {
            Err(e) => {
                return Err(e);
            },
            Ok(_) => {},
        }
        let mut vec: Vec<TerrainUnit> = Vec::new();
        push_plain_ground(&mut vec, cfg.baseline_row, cfg.visible_width as usize);
        vec.push(TerrainUnit::new_marker(cfg.baseline_row));
        push_plain_ground(&mut vec, cfg.baseline_row, (cfg.lookahead - 1) as usize);
        let mut source = TargetSource::seeded(seed);
        let first = source.draw_targets(&cfg);
        let t = Terrain {
            vec,
            offset_y: 0,
            roffset_y: 0,
            state: GenState {
                last_incl_dist: 0,
                last_obst_dist: 0,
                obst_len: 0,
                next_obst_len: first.length,
                next_obst_dist: first.distance,
            },
            screen_dist: 0,
            config: cfg,
            source,
        };
        proof {
            lemma_plain_ground_is_ok(t.vec@, cfg.baseline_row);
        }
        Ok(t)
    }

    /// Whether the buffer is well formed.
    pub fn is_wf(&self) -> (ok: bool)
        ensures
            ok == self.wf(),
    {
        match self.config.validate() {
            Err(_) => {
                return false;
            },
            Ok(_) => {},
        }
        let len = self.vec.len();
        let full: usize = self.config.visible_width as usize + self.config.lookahead as usize;
        if len == 0 || len > full || self.screen_dist >= self.config.lookahead || len
            + self.screen_dist as usize != full {
            return false;
        }
        let st = self.state;
        let last = self.vec[len - 1];
        let laying = st.obst_len > 0;
        let cursor_fits = self.config.min_obst_length <= st.next_obst_len && st.next_obst_len
            < self.config.max_obst_length && self.config.min_obst_dist <= st.next_obst_dist
            && st.next_obst_dist < self.config.max_obst_dist && st.obst_len <= st.next_obst_len
            && laying == last.obstacle && (!last.obstacle || last.unit_type == TerrainType::Flat)
            && (!laying || (st.last_obst_dist > st.next_obst_dist && st.last_incl_dist
            > self.config.min_incl_dist));
        if !cursor_fits {
            return false;
        }
        let ghost views = unit_views(self.vec@);
        let mut i: usize = 0;
        while i < len
            invariant
                len == self.vec.len(),
                views == unit_views(self.vec@),
                i <= len,
                forall|k: int| 0 <= k < i ==> obstacle_on_flat(#[trigger] views[k]),
                forall|k: int| 0 < k < i ==> #[trigger] joins(views, k),
            decreases len - i,
        {
            let unit = self.vec[i];
            assert(views[i as int] == unit@);
            if unit.obstacle && unit.unit_type != TerrainType::Flat {
                assert(!obstacle_on_flat(views[i as int]));
                return false;
            }
            if i > 0 {
                let before = self.vec[i - 1];
                assert(views[i - 1] == before@);
                let reversed = (before.unit_type == TerrainType::Up && unit.unit_type
                    == TerrainType::Down) || (before.unit_type == TerrainType::Down
                    && unit.unit_type == TerrainType::Up);
                if reversed {
                    assert(!joins(views, i as int));
                    return false;
                }
            }
            i = i + 1;
        }
        true
    }

    /// Whether the next scroll step refills the buffer, and so needs one
    /// noise sample for each unit of a chunk.
    pub fn regeneration_due(&self) -> (due: bool)
        ensures
            due == self.refill_due(),
    {
        self.screen_dist as u32 + 1 == self.config.lookahead as u32
    }

    /// The unit under the player.
    pub fn unit_at_player_column(&self) -> (unit: TerrainUnit)
        requires
            self.covers_screen(),
        ensures
            unit == self.vec[self.config.player_column as int],
    {
        self.vec[self.config.player_column as usize]
    }

    /// Draws the offset, in thousandths, from which the noise samples of
    /// the next chunk are to be taken.
    pub fn draw_noise_offset(&mut self) -> (offset: i32)
        ensures
            0 <= offset < crate::config::NOISE_SCALE,
            final(self).vec == old(self).vec,
            final(self).offset_y == old(self).offset_y,
            final(self).roffset_y == old(self).roffset_y,
            final(self).state == old(self).state,
            final(self).screen_dist == old(self).screen_dist,
            final(self).config == old(self).config,
    {
        self.source.draw_noise_offset()
    }

    /// Appends one generated unit for each noise sample. The targets that
    /// the generation may need are drawn from the random source, so the
    /// contract holds for some rolls within the configured ranges.
    pub fn generate_next_terrain_screen(&mut self, noise: &Vec<i32>)
        requires
            old(self).gen_ok(),
            heights_fit(old(self).vec@.last(), noise.len() as nat),
        ensures
            final(self).gen_ok(),
            final(self).config == old(self).config,
            final(self).offset_y == old(self).offset_y,
            final(self).roffset_y == old(self).roffset_y,
            final(self).screen_dist == old(self).screen_dist,
            exists|rolls: Seq<Targets>|
                rolls.len() == noise.len() && rolls_within(old(self).config, rolls)
                    && #[trigger] final(self).grown(old(self).vec@, old(self).state, noise@, rolls),
            final(self).vec.len() == old(self).vec.len() + noise.len(),
            forall|k: int|
                old(self).vec.len() <= k < final(self).vec.len() ==> #[trigger] follows_at(
                    final(self).vec@,
                    k,
                ),
    {
        let cfg = self.config;
        let ghost kept = self.vec@;
        let ghost start = self.cursor();
        let rolls = self.source.draw_rolls(&cfg, noise.len());
        let last = self.vec[self.vec.len() - 1];
        let mut fresh = generate(&cfg, &mut self.state, &last, noise, &rolls);
        let ghost made = fresh@;
        self.vec.append(&mut fresh);
        proof {
            assert(self.vec@.subrange(0, kept.len() as int) =~= kept);
            assert(self.vec@.subrange(kept.len() as int, self.vec.len() as int) =~= made);
            lemma_growth_keeps_ground(cfg, kept, start.state, noise@, rolls@, self.vec@);
            assert(self.grown(kept, start.state, noise@, rolls@));
            lemma_grown_units_follow(*self, kept, start.state, noise@, rolls@);
        }
    }

    /// One scroll step: the leftmost unit leaves, and once as many steps as
    /// the lookahead have passed since the last refill, one chunk of that
    /// size is generated from `noise` and appended.
    pub fn scroll_terrain(&mut self, noise: &Vec<i32>)
        requires
            old(self).wf(),
            old(self).refill_due() ==> noise.len() == old(self).config.lookahead && heights_fit(
                old(self).vec@.last(),
                noise.len() as nat,
            ),
        ensures
            final(self).wf(),
            final(self).scrolled(*old(self), noise@),
            final(self).offset_y == old(self).offset_y,
            final(self).roffset_y == old(self).roffset_y,
    {
        self.vec.remove(0);
        proof {
            assert(self.vec@ =~= old(self).vec@.skip(1));
            lemma_skip_keeps_ground(old(self).vec@);
            assert(self.vec@.last() == old(self).vec@.last());
        }
        if self.screen_dist as u32 + 1 == self.config.lookahead as u32 {
            let ghost kept = self.vec@;
            let ghost state = self.state;
            self.generate_next_terrain_screen(noise);
            let ghost rolls = choose|rolls: Seq<Targets>|
                rolls.len() == noise.len() && rolls_within(self.config, rolls)
                    && #[trigger] self.grown(kept, state, noise@, rolls);
            self.screen_dist = 0;
            assert(self.grown(old(self).vec@.skip(1), old(self).state, noise@, rolls));
        } else {
            self.screen_dist = self.screen_dist + 1;
        }
    }

    /// Eases the terrain towards the height it owes: while the player
    /// runs and the pending offset is not zero, exactly one row moves from
    /// the pending offset into the settled one.
    pub fn offset(&mut self, p: &Player)
        requires
            old(self).easing_fits(p.state),
        ensures
            final(self).offset_y == old(self).offsets_after_easing(p.state).0,
            final(self).roffset_y == old(self).offsets_after_easing(p.state).1,
            final(self).offset_y + final(self).roffset_y == old(self).offset_y + old(
                self,
            ).roffset_y,
            final(self).vec == old(self).vec,
            final(self).state == old(self).state,
            final(self).screen_dist == old(self).screen_dist,
            final(self).config == old(self).config,
            final(self).source == old(self).source,
    {
        if p.state == PlayerState::Running && self.roffset_y != 0 {
            let d: i32 = if self.roffset_y > 0 {
                1
            } else {
                -1
            };
            self.offset_y = self.offset_y + d;
            self.roffset_y = self.roffset_y - d;
        }
    }

    /// Adds the slope of the unit under the player to the pending offset:
    /// one for a climb, minus one for a descent, nothing for flat ground.
    pub fn roffset(&mut self)
        requires
            old(self).covers_screen(),
            old(self).slope_fits(),
        ensures
            final(self).roffset_y == old(self).roffset_y + old(self).vec[old(
                self,
            ).config.player_column as int].unit_type.slope(),
            final(self).offset_y == old(self).offset_y,
            final(self).vec == old(self).vec,
            final(self).state == old(self).state,
            final(self).screen_dist == old(self).screen_dist,
            final(self).config == old(self).config,
            final(self).source == old(self).source,
    {
        let d = self.vec[self.config.player_column as usize].unit_type.delta();
        self.roffset_y = self.roffset_y + d;
    }
}

/// Appends `n` units of flat, obstacle-free ground at row `iy`.
fn push_plain_ground(vec: &mut Vec<TerrainUnit>, iy: i32, n: usize)
    ensures
        final(vec).len() == old(vec).len() + n,
        forall|i: int| 0 <= i < old(vec).len() ==> final(vec)[i] == old(vec)[i],
        forall|i: int|
            old(vec).len() <= i < final(vec).len() ==> (#[trigger] final(vec)[i])@ == plain_ground(
                iy,
            ) && final(vec)[i].has_ground_tiles(),
{
    let mut i: usize = 0;
    while i < n
        invariant
            i <= n,
            vec.len() == old(vec).len() + i,
            forall|j: int| 0 <= j < old(vec).len() ==> vec[j] == old(vec)[j],
            forall|j: int|
                old(vec).len() <= j < vec.len() ==> (#[trigger] vec[j])@ == plain_ground(iy)
                    && vec[j].has_ground_tiles(),
        decreases n - i,
    {
        vec.push(TerrainUnit::new_flat(iy, false));
        i = i + 1;
    }
}

/// Flat, obstacle-free ground obeys the rules of the ground.
proof fn lemma_plain_ground_is_ok(units: Seq<TerrainUnit>, iy: i32)
    requires
        forall|i: int| 0 <= i < units.len() ==> (#[trigger] units[i])@ == plain_ground(iy),
    ensures
        ground_ok(unit_views(units)),
{
    let views = unit_views(units);
    assert forall|i: int| 0 <= i < views.len() implies obstacle_on_flat(#[trigger] views[i]) by {
        assert(views[i] == units[i]@);
    }
    assert forall|i: int| 0 < i < views.len() implies #[trigger] joins(views, i) by {
        assert(views[i] == units[i]@);
        assert(views[i - 1] == units[i - 1]@);
    }
}

/// Dropping the leftmost unit keeps the rules of the ground.
proof fn lemma_skip_keeps_ground(units: Seq<TerrainUnit>)
    requires
        units.len() >= 1,
        ground_ok(unit_views(units)),
    ensures
        ground_ok(unit_views(units.skip(1))),
{
    let before = unit_views(units);
    let views = unit_views(units.skip(1));
    assert forall|i: int| 0 <= i < views.len() implies obstacle_on_flat(#[trigger] views[i]) by {
        assert(views[i] == before[i + 1]);
    }
    assert forall|i: int| 0 < i < views.len() implies #[trigger] joins(views, i) by {
        assert(views[i] == before[i + 1]);
        assert(views[i - 1] == before[i]);
        assert(joins(before, i + 1));
    }
}

/// Appending what the generator makes after the last unit keeps the rules
/// of the ground, and the counters it ends with agree with the new last
/// unit.
proof fn lemma_growth_keeps_ground(
    cfg: Config,
    kept: Seq<TerrainUnit>,
    state: GenState,
    noise: Seq<i32>,
    rolls: Seq<Targets>,
    all: Seq<TerrainUnit>,
)
    requires
        cfg.valid(),
        kept.len() > 0,
        ground_ok(unit_views(kept)),
        cursor_ok(cfg, (Cursor { state, last: kept.last()@ })),
        rolls.len() == noise.len(),
        rolls_within(cfg, rolls),
        all.len() == kept.len() + noise.len(),
        all.subrange(0, kept.len() as int) == kept,
        unit_views(all.subrange(kept.len() as int, all.len() as int)) == generated(
            cfg,
            (Cursor { state, last: kept.last()@ }),
            noise,
            rolls,
        ),
    ensures
        ground_ok(unit_views(all)),
        cursor_ok(
            cfg,
            (Cursor {
                state: cursor_after(
                    cfg,
                    (Cursor { state, last: kept.last()@ }),
                    noise,
                    rolls,
                    noise.len(),
                ).state,
                last: all.last()@,
            }),
        ),
{
    let start = Cursor { state, last: kept.last()@ };
    let n = noise.len();
    let g = generated(cfg, start, noise, rolls);
    let views = unit_views(all);
    let old_views = unit_views(kept);
    let tail = all.subrange(kept.len() as int, all.len() as int);
    assert forall|i: int| 0 <= i < kept.len() implies #[trigger] views[i] == old_views[i] by {
        assert(all.subrange(0, kept.len() as int)[i] == all[i]);
    }
    assert forall|i: int| kept.len() <= i < all.len() implies #[trigger] views[i] == g[i
        - kept.len()] by {
        assert(tail[i - kept.len()] == all[i]);
        assert(unit_views(tail)[i - kept.len()] == tail[i - kept.len()]@);
    }
    lemma_cursor_stays_ok(cfg, start, noise, rolls, n);
    lemma_obstacles_stand_on_flat(cfg, start, noise, rolls);
    assert forall|i: int| 0 <= i < views.len() implies obstacle_on_flat(#[trigger] views[i]) by {
        if i < kept.len() {
            assert(views[i] == old_views[i]);
        } else {
            assert(views[i] == g[i - kept.len()]);
        }
    }
    assert forall|i: int| 0 < i < views.len() implies #[trigger] joins(views, i) by {
        if i < kept.len() {
            assert(views[i] == old_views[i]);
            assert(views[i - 1] == old_views[i - 1]);
            assert(joins(old_views, i));
        } else {
            lemma_slope_never_reverses_at_once(cfg, start, noise, rolls, i - kept.len());
            assert(views[i] == g[i - kept.len()]);
            if i > kept.len() {
                assert(views[i - 1] == g[i - kept.len() - 1]);
            } else {
                assert(views[i - 1] == old_views[i - 1]);
                assert(old_views[i - 1] == kept.last()@);
            }
        }
    }
    if n > 0 {
        assert(views[all.len() - 1] == g[n - 1]);
    } else {
        assert(all.last() == kept.last()) by {
            assert(all.subrange(0, kept.len() as int)[kept.len() - 1] == all[kept.len() - 1]);
        }
    }
}

/// In a buffer grown from `kept`, every appended unit follows the unit
/// before it.
pub proof fn lemma_grown_units_follow(
    t: Terrain,
    kept: Seq<TerrainUnit>,
    state: GenState,
    noise: Seq<i32>,
    rolls: Seq<Targets>,
)
    requires
        kept.len() > 0,
        t.grown(kept, state, noise, rolls),
    ensures
        forall|k: int| kept.len() <= k < t.vec.len() ==> #[trigger] follows_at(t.vec@, k),
{
    let start = Cursor { state, last: kept.last()@ };
    let g = generated(t.config, start, noise, rolls);
    let tail = t.vec@.subrange(kept.len() as int, t.vec.len() as int);
    assert forall|k: int| kept.len() <= k < t.vec.len() implies #[trigger] follows_at(
        t.vec@,
        k,
    ) by {
        let i = k - kept.len();
        lemma_each_unit_follows(t.config, start, noise, rolls, i);
        assert(unit_views(tail)[i] == tail[i]@);
        assert(tail[i] == t.vec[k]);
        if i > 0 {
            assert(unit_views(tail)[i - 1] == tail[i - 1]@);
            assert(tail[i - 1] == t.vec[k - 1]);
        } else {
            assert(t.vec@.subrange(0, kept.len() as int)[k - 1] == t.vec[k - 1]);
        }
    }
}

/// Growing a buffer by one generation and then by another leaves what one
/// generation from the joined noise and rolls leaves: the same units and
/// the same counters.
pub proof fn lemma_growing_twice_is_growing_once(
    first: Terrain,
    second: Terrain,
    kept: Seq<TerrainUnit>,
    state: GenState,
    noise1: Seq<i32>,
    rolls1: Seq<Targets>,
    noise2: Seq<i32>,
    rolls2: Seq<Targets>,
)
    requires
        kept.len() > 0,
        noise1.len() == rolls1.len(),
        noise2.len() == rolls2.len(),
        first.grown(kept, state, noise1, rolls1),
        second.config == first.config,
        second.grown(first.vec@, first.state, noise2, rolls2),
    ensures
        second.grown(kept, state, noise1 + noise2, rolls1 + rolls2),
{
    let cfg = first.config;
    let start = Cursor { state, last: kept.last()@ };
    let n1 = noise1.len();
    let mid = cursor_after(cfg, start, noise1, rolls1, n1);
    let g1 = generated(cfg, start, noise1, rolls1);
    let tail1 = first.vec@.subrange(kept.len() as int, first.vec.len() as int);
    if n1 > 0 {
        assert(unit_views(tail1)[n1 - 1] == tail1[n1 - 1]@);
        assert(tail1[n1 - 1] == first.vec@.last());
        assert(g1[n1 - 1] == mid.last);
    } else {
        assert(first.vec@.subrange(0, kept.len() as int)[kept.len() - 1] == first.vec@.last());
    }
    assert((Cursor { state: first.state, last: first.vec@.last()@ }) == mid);
    lemma_chunking_is_invisible(cfg, start, noise1, rolls1, noise2, rolls2);
    let g2 = generated(cfg, mid, noise2, rolls2);
    let tail2 = second.vec@.subrange(first.vec.len() as int, second.vec.len() as int);
    let tail = second.vec@.subrange(kept.len() as int, second.vec.len() as int);
    assert(second.vec@.subrange(0, kept.len() as int) =~= kept) by {
        assert forall|i: int| 0 <= i < kept.len() implies second.vec@[i] == kept[i] by {
            assert(second.vec@.subrange(0, first.vec.len() as int)[i] == second.vec@[i]);
            assert(first.vec@.subrange(0, kept.len() as int)[i] == first.vec@[i]);
        }
    }
    assert(unit_views(tail) =~= g1 + g2) by {
        assert forall|i: int| 0 <= i < tail.len() implies unit_views(tail)[i] == (g1 + g2)[i] by {
            if i < n1 {
                assert(second.vec@.subrange(0, first.vec.len() as int)[kept.len() + i]
                    == second.vec@[kept.len() + i]);
                assert(unit_views(tail1)[i] == tail1[i]@);
                assert(tail1[i] == first.vec@[kept.len() + i]);
            } else {
                assert(unit_views(tail2)[i - n1] == tail2[i - n1]@);
                assert(tail2[i - n1] == second.vec@[kept.len() + i]);
            }
        }
    }
    assert forall|i: int| kept.len() <= i < second.vec.len() implies (
    #[trigger] second.vec[i]).has_ground_tiles() by {
        if i < first.vec.len() {
            assert(second.vec@.subrange(0, first.vec.len() as int)[i] == second.vec@[i]);
            assert(first.vec[i].has_ground_tiles());
        }
    }
    assert((noise1 + noise2).len() == n1 + noise2.len());
    assert(second.state == cursor_after(
        cfg,
        start,
        noise1 + noise2,
        rolls1 + rolls2,
        (noise1 + noise2).len(),
    ).state);
}

} // verus!
