//! What holds of every terrain the generator can produce.

use vstd::prelude::*;
use crate::config::Config;
use crate::generator::{
    advance, cursor_after, generated, next_height, rolls_within, Cursor, Targets,
};
use crate::terrain::{TerrainType, UnitView};

verus! {

/// The counters agree with the unit generated last: the targets lie in the
/// configured ranges, a run is being laid exactly when that unit carries an
/// obstacle, the run has not outgrown its target, and what allowed the run
/// to start still holds.
pub open spec fn cursor_ok(cfg: Config, c: Cursor) -> bool {
    let st = c.state;
    &&& (Targets { length: st.next_obst_len, distance: st.next_obst_dist }).within(cfg)
    &&& st.obst_len <= st.next_obst_len
    &&& (st.obst_len > 0 <==> c.last.obstacle)
    &&& (c.last.obstacle ==> c.last.unit_type == TerrainType::Flat)
    &&& (st.obst_len > 0 ==> st.last_obst_dist > st.next_obst_dist && st.last_incl_dist
        > cfg.min_incl_dist)
}

/// The unit that stands before position `i` of a generation: the
/// predecessor for the first position, the generated unit before it for
/// the others.
pub open spec fn unit_before(
    cfg: Config,
    start: Cursor,
    noise: Seq<i32>,
    rolls: Seq<Targets>,
    i: int,
) -> UnitView {
    if i == 0 {
        start.last
    } else {
        generated(cfg, start, noise, rolls)[i - 1]
    }
}

/// Splitting the inputs of one generation at any point, and resuming the
/// second part where the first one stopped, gives the units of the whole
/// and leaves the same counters.
pub proof fn lemma_chunking_is_invisible(
    cfg: Config,
    start: Cursor,
    noise1: Seq<i32>,
    rolls1: Seq<Targets>,
    noise2: Seq<i32>,
    rolls2: Seq<Targets>,
)
    requires
        noise1.len() == rolls1.len(),
        noise2.len() == rolls2.len(),
    ensures
        generated(cfg, start, noise1 + noise2, rolls1 + rolls2) == generated(
            cfg,
            start,
            noise1,
            rolls1,
        ) + generated(
            cfg,
            cursor_after(cfg, start, noise1, rolls1, noise1.len()),
            noise2,
            rolls2,
        ),
        cursor_after(cfg, start, noise1 + noise2, rolls1 + rolls2, noise1.len() + noise2.len())
            == cursor_after(
            cfg,
            cursor_after(cfg, start, noise1, rolls1, noise1.len()),
            noise2,
            rolls2,
            noise2.len(),
        ),
{
    let whole = generated(cfg, start, noise1 + noise2, rolls1 + rolls2);
    let mid = cursor_after(cfg, start, noise1, rolls1, noise1.len());
    let parts = generated(cfg, start, noise1, rolls1) + generated(cfg, mid, noise2, rolls2);
    assert forall|i: int| 0 <= i < whole.len() implies whole[i] == parts[i] by {
        if i < noise1.len() {
            lemma_first_part(cfg, start, noise1, rolls1, noise2, rolls2, (i + 1) as nat);
        } else {
            lemma_second_part(
                cfg,
                start,
                noise1,
                rolls1,
                noise2,
                rolls2,
                (i - noise1.len() + 1) as nat,
            );
        }
    }
    assert(whole =~= parts);
    lemma_second_part(cfg, start, noise1, rolls1, noise2, rolls2, noise2.len());
}

proof fn lemma_first_part(
    cfg: Config,
    start: Cursor,
    noise1: Seq<i32>,
    rolls1: Seq<Targets>,
    noise2: Seq<i32>,
    rolls2: Seq<Targets>,
    k: nat,
)
    requires
        noise1.len() == rolls1.len(),
        k <= noise1.len(),
    ensures
        cursor_after(cfg, start, noise1 + noise2, rolls1 + rolls2, k) == cursor_after(
            cfg,
            start,
            noise1,
            rolls1,
            k,
        ),
    decreases k,
{
    if k > 0 {
        lemma_first_part(cfg, start, noise1, rolls1, noise2, rolls2, (k - 1) as nat);
    }
}

proof fn lemma_second_part(
    cfg: Config,
    start: Cursor,
    noise1: Seq<i32>,
    rolls1: Seq<Targets>,
    noise2: Seq<i32>,
    rolls2: Seq<Targets>,
    j: nat,
)
    requires
        noise1.len() == rolls1.len(),
        noise2.len() == rolls2.len(),
        j <= noise2.len(),
    ensures
        cursor_after(cfg, start, noise1 + noise2, rolls1 + rolls2, noise1.len() + j)
            == cursor_after(
            cfg,
            cursor_after(cfg, start, noise1, rolls1, noise1.len()),
            noise2,
            rolls2,
            j,
        ),
    decreases j,
{
    if j == 0 {
        lemma_first_part(cfg, start, noise1, rolls1, noise2, rolls2, noise1.len());
    } else {
        lemma_second_part(cfg, start, noise1, rolls1, noise2, rolls2, (j - 1) as nat);
        assert((noise1 + noise2)[noise1.len() + j - 1] == noise2[j - 1]);
        assert((rolls1 + rolls2)[noise1.len() + j - 1] == rolls2[j - 1]);
    }
}

/// A climb is never followed at once by a descent, nor a descent by a
/// climb, whatever the noise and the rolls; this holds across the start of
/// a generation too.
pub proof fn lemma_slope_never_reverses_at_once(
    cfg: Config,
    start: Cursor,
    noise: Seq<i32>,
    rolls: Seq<Targets>,
    i: int,
)
    requires
        0 <= i < noise.len(),
    ensures
        !unit_before(cfg, start, noise, rolls, i).unit_type.opposes(
            generated(cfg, start, noise, rolls)[i].unit_type,
        ),
{
    let c = cursor_after(cfg, start, noise, rolls, i as nat);
    assert(c.last == unit_before(cfg, start, noise, rolls, i));
    assert(cursor_after(cfg, start, noise, rolls, (i + 1) as nat) == advance(
        cfg,
        c,
        noise[i],
        rolls[i],
    ));
}

/// Where the configured incline distance is at most one, two slopes of
/// opposite direction with only flat units between them have at least that
/// many flat units between them.
pub proof fn lemma_opposite_slopes_are_apart(
    cfg: Config,
    start: Cursor,
    noise: Seq<i32>,
    rolls: Seq<Targets>,
    i: int,
    j: int,
)
    requires
        cfg.min_incl_dist <= 1,
        0 <= i < j < noise.len(),
        generated(cfg, start, noise, rolls)[i].unit_type.opposes(
            generated(cfg, start, noise, rolls)[j].unit_type,
        ),
        forall|k: int|
            i < k < j ==> (#[trigger] generated(cfg, start, noise, rolls)[k]).unit_type
                == TerrainType::Flat,
    ensures
        j - i - 1 >= cfg.min_incl_dist,
{
    lemma_slope_never_reverses_at_once(cfg, start, noise, rolls, j);
}

/// Obstacles stand on flat units only.
pub proof fn lemma_obstacles_stand_on_flat(
    cfg: Config,
    start: Cursor,
    noise: Seq<i32>,
    rolls: Seq<Targets>,
)
    ensures
        forall|i: int|
            0 <= i < noise.len() && (#[trigger] generated(cfg, start, noise, rolls)[i]).obstacle
                ==> generated(cfg, start, noise, rolls)[i].unit_type == TerrainType::Flat,
{
    assert forall|i: int|
        0 <= i < noise.len() && (#[trigger] generated(
            cfg,
            start,
            noise,
            rolls,
        )[i]).obstacle implies generated(cfg, start, noise, rolls)[i].unit_type
        == TerrainType::Flat by {
        let c = cursor_after(cfg, start, noise, rolls, i as nat);
        assert(cursor_after(cfg, start, noise, rolls, (i + 1) as nat)
            == advance(cfg, c, noise[i], rolls[i]));
    }
}

/// Counters that agree with the last unit still do so after any number of
/// further units, as long as the rolls lie in the configured ranges.
pub proof fn lemma_cursor_stays_ok(
    cfg: Config,
    start: Cursor,
    noise: Seq<i32>,
    rolls: Seq<Targets>,
    k: nat,
)
    requires
        cfg.valid(),
        cursor_ok(cfg, start),
        rolls.len() == noise.len(),
        rolls_within(cfg, rolls),
        k <= noise.len(),
    ensures
        cursor_ok(cfg, cursor_after(cfg, start, noise, rolls, k)),
    decreases k,
{
    if k > 0 {
        lemma_cursor_stays_ok(cfg, start, noise, rolls, (k - 1) as nat);
        assert(rolls[k - 1].within(cfg));
    }
}

proof fn lemma_run_is_counted(
    cfg: Config,
    start: Cursor,
    noise: Seq<i32>,
    rolls: Seq<Targets>,
    a: int,
    k: int,
)
    requires
        cfg.valid(),
        cursor_ok(cfg, start),
        rolls.len() == noise.len(),
        rolls_within(cfg, rolls),
        0 <= a <= k <= noise.len(),
        !unit_before(cfg, start, noise, rolls, a).obstacle,
        forall|m: int| a <= m < k ==> (#[trigger] generated(cfg, start, noise, rolls)[m]).obstacle,
    ensures
        cursor_after(cfg, start, noise, rolls, k as nat).state.obst_len == k - a,
    decreases k - a,
{
    if k == a {
        lemma_cursor_stays_ok(cfg, start, noise, rolls, a as nat);
        let c = cursor_after(cfg, start, noise, rolls, a as nat);
        assert(c.last == unit_before(cfg, start, noise, rolls, a));
    } else {
        lemma_run_is_counted(cfg, start, noise, rolls, a, k - 1);
        lemma_cursor_stays_ok(cfg, start, noise, rolls, (k - 1) as nat);
        assert(generated(cfg, start, noise, rolls)[k - 1].obstacle);
    }
}

/// An obstacle run that begins inside a generation, or at its start after
/// an obstacle-free predecessor, stays shorter than the configured maximum;
/// and once a unit without obstacle follows it, it is at least as long as
/// the configured minimum.
pub proof fn lemma_obstacle_runs_are_bounded(
    cfg: Config,
    start: Cursor,
    noise: Seq<i32>,
    rolls: Seq<Targets>,
    a: int,
    b: int,
)
    requires
        cfg.valid(),
        cursor_ok(cfg, start),
        rolls.len() == noise.len(),
        rolls_within(cfg, rolls),
        0 <= a < b <= noise.len(),
        !unit_before(cfg, start, noise, rolls, a).obstacle,
        forall|m: int| a <= m < b ==> (#[trigger] generated(cfg, start, noise, rolls)[m]).obstacle,
    ensures
        b - a < cfg.max_obst_length,
        b < noise.len() && !generated(cfg, start, noise, rolls)[b].obstacle ==> cfg.min_obst_length
            <= b - a,
{
    lemma_run_is_counted(cfg, start, noise, rolls, a, b);
    lemma_cursor_stays_ok(cfg, start, noise, rolls, b as nat);
    let c = cursor_after(cfg, start, noise, rolls, b as nat);
    if b < noise.len() && !generated(cfg, start, noise, rolls)[b].obstacle {
        assert(c.last == generated(cfg, start, noise, rolls)[b - 1]);
        assert(cursor_after(cfg, start, noise, rolls, (b + 1) as nat)
            == advance(cfg, c, noise[b], rolls[b]));
    }
}

proof fn lemma_gap_is_counted(
    cfg: Config,
    start: Cursor,
    noise: Seq<i32>,
    rolls: Seq<Targets>,
    m: int,
    k: int,
)
    requires
        cfg.valid(),
        cursor_ok(cfg, start),
        rolls.len() == noise.len(),
        rolls_within(cfg, rolls),
        0 <= m,
        m + 1 < k <= noise.len(),
        generated(cfg, start, noise, rolls)[m].obstacle,
        forall|j: int| m < j < k ==> !(#[trigger] generated(cfg, start, noise, rolls)[j]).obstacle,
    ensures
        cursor_after(cfg, start, noise, rolls, k as nat).state.obst_len == 0,
        cursor_after(cfg, start, noise, rolls, k as nat).state.last_obst_dist <= k - m - 1,
    decreases k - m,
{
    let g = generated(cfg, start, noise, rolls);
    let before = cursor_after(cfg, start, noise, rolls, (k - 1) as nat);
    lemma_cursor_stays_ok(cfg, start, noise, rolls, (k - 1) as nat);
    assert(before.last == g[k - 2]);
    assert(!g[k - 1].obstacle);
    assert(cursor_after(cfg, start, noise, rolls, k as nat) == advance(
        cfg,
        before,
        noise[k - 1],
        rolls[k - 1],
    ));
    if k > m + 2 {
        lemma_gap_is_counted(cfg, start, noise, rolls, m, k - 1);
    }
}

/// Between two obstacle runs lie more obstacle-free units than the
/// smallest distance the configuration draws.
pub proof fn lemma_obstacle_runs_are_apart(
    cfg: Config,
    start: Cursor,
    noise: Seq<i32>,
    rolls: Seq<Targets>,
    m: int,
    c: int,
)
    requires
        cfg.valid(),
        cursor_ok(cfg, start),
        rolls.len() == noise.len(),
        rolls_within(cfg, rolls),
        0 <= m,
        m + 1 < c < noise.len(),
        generated(cfg, start, noise, rolls)[m].obstacle,
        generated(cfg, start, noise, rolls)[c].obstacle,
        forall|j: int| m < j < c ==> !(#[trigger] generated(cfg, start, noise, rolls)[j]).obstacle,
    ensures
        c - m - 1 > cfg.min_obst_dist,
{
    lemma_gap_is_counted(cfg, start, noise, rolls, m, c);
    lemma_cursor_stays_ok(cfg, start, noise, rolls, c as nat);
    let at = cursor_after(cfg, start, noise, rolls, c as nat);
    assert(cursor_after(cfg, start, noise, rolls, (c + 1) as nat) == advance(
        cfg,
        at,
        noise[c],
        rolls[c],
    ));
}

/// `unit` may stand right after `before`: its height is the one its slope
/// gives it, an obstacle on it stands on flat ground, and it does not
/// reverse the slope of `before`.
pub open spec fn follows(before: UnitView, unit: UnitView) -> bool {
    &&& unit.height == next_height(before, unit.unit_type)
    &&& (unit.obstacle ==> unit.unit_type == TerrainType::Flat)
    &&& !before.unit_type.opposes(unit.unit_type)
}

/// Every generated unit follows the unit before it; for the first one that
/// is the predecessor, so heights carry from one generation to the next.
pub proof fn lemma_each_unit_follows(
    cfg: Config,
    start: Cursor,
    noise: Seq<i32>,
    rolls: Seq<Targets>,
    i: int,
)
    requires
        0 <= i < noise.len(),
    ensures
        follows(
            unit_before(cfg, start, noise, rolls, i),
            generated(cfg, start, noise, rolls)[i],
        ),
{
    let c = cursor_after(cfg, start, noise, rolls, i as nat);
    assert(c.last == unit_before(cfg, start, noise, rolls, i));
    assert(cursor_after(cfg, start, noise, rolls, (i + 1) as nat) == advance(
        cfg,
        c,
        noise[i],
        rolls[i],
    ));
}

proof fn lemma_open_run_is_counted(
    cfg: Config,
    start: Cursor,
    noise: Seq<i32>,
    rolls: Seq<Targets>,
    k: int,
)
    requires
        cfg.valid(),
        cursor_ok(cfg, start),
        rolls.len() == noise.len(),
        rolls_within(cfg, rolls),
        0 <= k <= noise.len(),
        forall|m: int| 0 <= m < k ==> (#[trigger] generated(cfg, start, noise, rolls)[m]).obstacle,
    ensures
        cursor_after(cfg, start, noise, rolls, k as nat).state.obst_len == start.state.obst_len
            + k,
    decreases k,
{
    if k > 0 {
        lemma_open_run_is_counted(cfg, start, noise, rolls, k - 1);
        lemma_cursor_stays_ok(cfg, start, noise, rolls, (k - 1) as nat);
        assert(generated(cfg, start, noise, rolls)[k - 1].obstacle);
    }
}

/// An obstacle run that was being laid when a generation began is
/// continued by it: with the units laid before, it stays shorter than the
/// configured maximum, and once a unit without obstacle follows it, it is
/// at least as long as the configured minimum.
pub proof fn lemma_run_across_generations_is_bounded(
    cfg: Config,
    start: Cursor,
    noise: Seq<i32>,
    rolls: Seq<Targets>,
    b: int,
)
    requires
        cfg.valid(),
        cursor_ok(cfg, start),
        rolls.len() == noise.len(),
        rolls_within(cfg, rolls),
        0 <= b <= noise.len(),
        forall|m: int| 0 <= m < b ==> (#[trigger] generated(cfg, start, noise, rolls)[m]).obstacle,
    ensures
        start.state.obst_len + b < cfg.max_obst_length,
        start.last.obstacle && b < noise.len() && !generated(cfg, start, noise, rolls)[b].obstacle
            ==> cfg.min_obst_length <= start.state.obst_len + b,
{
    lemma_open_run_is_counted(cfg, start, noise, rolls, b);
    lemma_cursor_stays_ok(cfg, start, noise, rolls, b as nat);
    let c = cursor_after(cfg, start, noise, rolls, b as nat);
    if start.last.obstacle && b < noise.len() && !generated(cfg, start, noise, rolls)[b].obstacle {
        assert(c.last == unit_before(cfg, start, noise, rolls, b));
        assert(c.last.obstacle);
        assert(cursor_after(cfg, start, noise, rolls, (b + 1) as nat) == advance(
            cfg,
            c,
            noise[b],
            rolls[b],
        ));
    }
}

proof fn lemma_flat_stretch_is_counted(
    cfg: Config,
    start: Cursor,
    noise: Seq<i32>,
    rolls: Seq<Targets>,
    s: int,
    k: int,
)
    requires
        0 <= s < k <= noise.len(),
        generated(cfg, start, noise, rolls)[s].unit_type != TerrainType::Flat,
    ensures
        cursor_after(cfg, start, noise, rolls, k as nat).state.last_incl_dist <= k - s - 1,
    decreases k - s,
{
    let before = cursor_after(cfg, start, noise, rolls, (k - 1) as nat);
    assert(cursor_after(cfg, start, noise, rolls, k as nat) == advance(
        cfg,
        before,
        noise[k - 1],
        rolls[k - 1],
    ));
    if k > s + 1 {
        lemma_flat_stretch_is_counted(cfg, start, noise, rolls, s, k - 1);
    }
}

/// More units than the configured incline distance lie between any slope
/// and an obstacle that comes after it.
pub proof fn lemma_obstacles_keep_off_slopes(
    cfg: Config,
    start: Cursor,
    noise: Seq<i32>,
    rolls: Seq<Targets>,
    s: int,
    c: int,
)
    requires
        0 <= s < c < noise.len(),
        generated(cfg, start, noise, rolls)[s].unit_type != TerrainType::Flat,
        generated(cfg, start, noise, rolls)[c].obstacle,
    ensures
        c - s - 1 > cfg.min_incl_dist,
{
    lemma_flat_stretch_is_counted(cfg, start, noise, rolls, s, c);
    let at = cursor_after(cfg, start, noise, rolls, c as nat);
    assert(cursor_after(cfg, start, noise, rolls, (c + 1) as nat) == advance(
        cfg,
        at,
        noise[c],
        rolls[c],
    ));
}

} // verus!
