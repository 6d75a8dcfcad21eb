//! The seeded pseudo-random source from which obstacle targets are drawn.

use vstd::prelude::*;
use rand::rngs::StdRng;
use rand::{Rng, SeedableRng};
use crate::config::{Config, NOISE_SCALE};
use crate::generator::{rolls_within, Targets};

verus! {

#[verifier::external_type_specification]
#[verifier::external_body]
pub struct ExStdRng(StdRng);

/// `rand::SeedableRng::seed_from_u64` on `rand::rngs::StdRng`: a generator
/// built from a 64-bit seed. Nothing is claimed of the generator.
#[verifier::external_body]
fn rng_from_seed(seed: u64) -> StdRng {
    StdRng::seed_from_u64(seed)
}

/// `rand::Rng::gen_range` on `rand::rngs::StdRng`, for `u32`: some value of
/// the half-open range from `low` to `high`. The call panics when the
/// range is empty, so `low < high` is asked of the caller.
#[verifier::external_body]
fn rng_range(rng: &mut StdRng, low: u32, high: u32) -> (r: u32)
    requires
        low < high,
    ensures
        low <= r < high,
{
    rng.gen_range(low, high)
}

/// The random source of one terrain. Which values it hands out is not
/// part of any contract: only the ranges they lie in are.
#[derive(Debug)]
pub struct TargetSource {
    rng: StdRng,
}

impl TargetSource {
    /// A source that replays the same draws for the same seed.
    pub fn seeded(seed: u64) -> TargetSource {
        TargetSource { rng: rng_from_seed(seed) }
    }

    /// Draws a run-length target and a distance target.
    pub fn draw_targets(&mut self, cfg: &Config) -> (t: Targets)
        requires
            cfg.obstacle_length_ok(),
            cfg.obstacle_distance_ok(),
        ensures
            t.within(*cfg),
    {
        let length = rng_range(&mut self.rng, cfg.min_obst_length, cfg.max_obst_length);
        let distance = rng_range(&mut self.rng, cfg.min_obst_dist, cfg.max_obst_dist);
        Targets { length, distance }
    }

    /// Draws `n` pairs of targets, one for each unit of a chunk.
    pub fn draw_rolls(&mut self, cfg: &Config, n: usize) -> (rolls: Vec<Targets>)
        requires
            cfg.obstacle_length_ok(),
            cfg.obstacle_distance_ok(),
        ensures
            rolls.len() == n,
            rolls_within(*cfg, rolls@),
    {
        let mut rolls: Vec<Targets> = Vec::new();
        let mut i: usize = 0;
        while i < n
            invariant
                i <= n,
                rolls.len() == i,
                rolls_within(*cfg, rolls@),
                cfg.obstacle_length_ok(),
                cfg.obstacle_distance_ok(),
            decreases n - i,
        {
            let t = self.draw_targets(cfg);
            rolls.push(t);
            i = i + 1;
        }
        rolls
    }

    /// Draws the offset, in thousandths, from which the noise samples of
    /// the next chunk are taken.
    pub fn draw_noise_offset(&mut self) -> (offset: i32)
        ensures
            0 <= offset < NOISE_SCALE,
    {
        let r = rng_range(&mut self.rng, 0, NOISE_SCALE as u32);
        r as i32
    }
}

} // verus!
