//! The difficulty of a run: the score, the tick interval that shrinks with
//! it, and the air time that grows as the ticks get shorter.

use vstd::prelude::*;
use vstd::arithmetic::div_mod::{lemma_div_is_ordered, lemma_div_pos_is_pos};
use vstd::arithmetic::mul::{lemma_mul_inequality, lemma_mul_is_commutative};
use crate::config::{Config, ConfigError};

verus! {

#[derive(Copy, Clone, Debug, PartialEq, Eq)]
pub struct Game {
    pub playing: bool,
    pub pause: bool,
    /// Ticks survived in this run.
    pub score: u32,
    /// Milliseconds between two ticks.
    pub speed: i64,
    /// Ticks after which a jump begins to fall.
    pub max_air_time: i32,
    pub highscore: u32,
    pub config: Config,
}

/// The air time that belongs to a tick interval: the initial air time,
/// plus the share of the gain by which the interval has shrunk from the
/// initial one.
pub open spec fn air_time_at(cfg: Config, speed: int) -> int {
    cfg.initial_air_time + (cfg.air_time_gain * (cfg.initial_speed - speed)) / (
    cfg.initial_speed as int)
}

impl Game {
    /// The tick interval lies between zero and the initial one, and the air
    /// time is the one that belongs to it.
    pub open spec fn wf(self) -> bool {
        &&& self.config.tick_interval_ok()
        &&& 0 <= self.speed <= self.config.initial_speed
        &&& self.max_air_time == air_time_at(self.config, self.speed as int)
    }

    /// The score has reached a multiple of the score interval while the
    /// tick interval is still above its floor.
    pub open spec fn speeds_up(self) -> bool {
        &&& self.score != 0
        &&& self.score % self.config.speed_change_interval == 0
        &&& self.speed > self.config.max_speed
    }

    /// The tick interval after one decay.
    pub open spec fn decayed_speed(self) -> int {
        (self.speed * self.config.speed_decay_percent) / 100
    }

    pub open spec fn after_speed_update(self) -> Game {
        if self.speeds_up() {
            Game {
                speed: self.decayed_speed() as i64,
                max_air_time: air_time_at(self.config, self.decayed_speed()) as i32,
                ..self
            }
        } else {
            self
        }
    }

    pub open spec fn after_score_update(self) -> Game {
        Game { score: (self.score + 1) as u32, ..self }
    }

    /// The game after `k` ticks' worth of difficulty advance: the speed
    /// update, then the score update, `k` times over.
    pub open spec fn after_advances(self, k: nat) -> Game
        decreases k,
    {
        if k == 0 {
            self
        } else {
            self.after_advances((k - 1) as nat).after_speed_update().after_score_update()
        }
    }

    /// A new run on a valid configuration: score zero, the initial tick
    /// interval and the initial air time.
    pub fn new(cfg: &Config, highscore: u32) -> (res: Result<Game, ConfigError>)
        ensures
            res is Ok <==> cfg.valid(),
            res matches Err(e) ==> cfg.rejection() == Some(e),
            res matches Ok(g) ==> g.wf() && g == (Game {
                playing: true,
                pause: false,
                score: 0,
                speed: cfg.initial_speed as i64,
                max_air_time: cfg.initial_air_time as i32,
                highscore,
                config: *cfg,
            }),
    {
        match cfg.validate() {
            Err(e) => Err(e),
            Ok(_) => {
                assert((cfg.air_time_gain * 0) / (cfg.initial_speed as int) == 0);
                Ok(
                    Game {
                        playing: true,
                        pause: false,
                        score: 0,
                        speed: cfg.initial_speed as i64,
                        max_air_time: cfg.initial_air_time as i32,
                        highscore,
                        config: *cfg,
                    },
                )
            },
        }
    }

    /// Whether the game is well formed.
    pub fn is_wf(&self) -> (ok: bool)
        ensures
            ok == self.wf(),
    {
        let cfg = &self.config;
        if cfg.initial_speed == 0 || cfg.speed_decay_percent == 0 || cfg.speed_decay_percent > 100
            || cfg.speed_change_interval == 0 {
            return false;
        }
        if self.speed < 0 || self.speed > cfg.initial_speed as i64 {
            return false;
        }
        let initial: u64 = cfg.initial_speed as u64;
        let shrunk: u64 = initial - self.speed as u64;
        assert(cfg.air_time_gain * shrunk <= 0xffff * 0xffff_ffff) by (nonlinear_arith)
            requires
                0 <= cfg.air_time_gain <= 0xffff,
                0 <= shrunk <= 0xffff_ffff,
        ;
        let gained: u64 = (cfg.air_time_gain as u64 * shrunk) / initial;
        proof {
            lemma_air_time_grows(*cfg, self.speed as int, self.speed as int);
        }
        self.max_air_time as i64 == cfg.initial_air_time as i64 + gained as i64
    }

    /// Shortens the tick interval when the score calls for it, and sets the
    /// air time that belongs to the new interval. The interval never grows
    /// and the air time never shrinks.
    pub fn update_speed(&mut self)
        requires
            old(self).wf(),
        ensures
            *final(self) == old(self).after_speed_update(),
            final(self).wf(),
            final(self).speed <= old(self).speed,
            final(self).max_air_time >= old(self).max_air_time,
    {
        proof {
            lemma_speed_update_is_monotonic(*self);
        }
        if self.score != 0 && self.score % self.config.speed_change_interval == 0 && self.speed
            > self.config.max_speed as i64 {
            let initial: u64 = self.config.initial_speed as u64;
            let slower: u64 = (self.speed as u64 * self.config.speed_decay_percent as u64) / 100;
            assert(self.config.air_time_gain * (initial - slower) <= 0xffff * 0xffff_ffff)
                by (nonlinear_arith)
                requires
                    0 <= self.config.air_time_gain <= 0xffff,
                    0 <= initial - slower <= 0xffff_ffff,
            ;
            let gained: u64 = (self.config.air_time_gain as u64 * (initial - slower)) / initial;
            self.speed = slower as i64;
            self.max_air_time = (self.config.initial_air_time as u64 + gained) as i32;
        }
    }

    /// Counts one more tick survived.
    pub fn update_score(&mut self)
        requires
            old(self).score < u32::MAX,
        ensures
            *final(self) == old(self).after_score_update(),
            final(self).score == old(self).score + 1,
    {
        self.score = self.score + 1;
    }

    /// Raises the high score to the score once the score is above it.
    pub fn update_highscore(&mut self)
        ensures
            *final(self) == (Game {
                highscore: if old(self).score > old(self).highscore {
                    old(self).score
                } else {
                    old(self).highscore
                },
                ..*old(self)
            }),
    {
        if self.score > self.highscore {
            self.highscore = self.score;
        }
    }

    /// A tick is due once more time than the tick interval has passed
    /// since the last one.
    pub fn tick_due(&self, elapsed_ms: i64) -> (due: bool)
        ensures
            due == (elapsed_ms > self.speed),
    {
        elapsed_ms > self.speed
    }
}

/// One speed update keeps the game well formed, never lengthens the tick
/// interval and never shortens the air time.
pub proof fn lemma_speed_update_is_monotonic(g: Game)
    requires
        g.wf(),
    ensures
        g.after_speed_update().wf(),
        0 <= g.decayed_speed() <= g.speed,
        g.after_speed_update().speed <= g.speed,
        g.after_speed_update().max_air_time >= g.max_air_time,
        air_time_at(g.config, g.decayed_speed()) <= g.config.initial_air_time
            + g.config.air_time_gain,
{
    let cfg = g.config;
    let t0 = cfg.initial_speed as int;
    let t = g.speed as int;
    let pct = cfg.speed_decay_percent as int;
    let gain = cfg.air_time_gain as int;
    let slower = g.decayed_speed();
    assert(0 <= t * pct <= t * 100) by (nonlinear_arith)
        requires
            0 <= t,
            1 <= pct <= 100,
    ;
    lemma_div_is_ordered(t * pct, t * 100, 100);
    lemma_div_pos_is_pos(t * pct, 100);
    assert((t * 100) / 100 == t) by (nonlinear_arith);
    assert(0 <= slower <= t);
    lemma_air_time_grows(cfg, slower, t);
}

/// A shorter tick interval never has a shorter air time, and no air time
/// exceeds the initial one by more than the gain.
pub proof fn lemma_air_time_grows(cfg: Config, shorter: int, longer: int)
    requires
        cfg.initial_speed >= 1,
        0 <= shorter <= longer <= cfg.initial_speed,
    ensures
        air_time_at(cfg, longer) <= air_time_at(cfg, shorter),
        cfg.initial_air_time <= air_time_at(cfg, longer),
        air_time_at(cfg, shorter) <= cfg.initial_air_time + cfg.air_time_gain,
{
    let t0 = cfg.initial_speed as int;
    let gain = cfg.air_time_gain as int;
    lemma_mul_inequality(t0 - longer, t0 - shorter, gain);
    lemma_mul_is_commutative(gain, t0 - longer);
    lemma_mul_is_commutative(gain, t0 - shorter);
    lemma_div_is_ordered(gain * (t0 - longer), gain * (t0 - shorter), t0);
    assert(0 <= gain * (t0 - longer)) by (nonlinear_arith)
        requires
            0 <= gain,
            0 <= t0 - longer,
    ;
    lemma_div_pos_is_pos(gain * (t0 - longer), t0);
    assert(gain * (t0 - shorter) <= gain * t0) by (nonlinear_arith)
        requires
            0 <= gain,
            0 <= t0 - shorter <= t0,
    ;
    lemma_div_is_ordered(gain * (t0 - shorter), gain * t0, t0);
    assert((gain * t0) / t0 == gain) by (nonlinear_arith)
        requires
            t0 >= 1,
    ;
}

/// Over any number of ticks of a run the tick interval never increases
/// and the air time never decreases.
pub proof fn lemma_difficulty_is_monotonic(g: Game, k: nat)
    requires
        g.wf(),
    ensures
        g.after_advances(k).wf(),
        g.after_advances(k).speed <= g.speed,
        g.after_advances(k).max_air_time >= g.max_air_time,
        g.after_advances(k + 1).speed <= g.after_advances(k).speed,
        g.after_advances(k + 1).max_air_time >= g.after_advances(k).max_air_time,
    decreases k,
{
    if k > 0 {
        let before = g.after_advances((k - 1) as nat);
        lemma_difficulty_is_monotonic(g, (k - 1) as nat);
        lemma_speed_update_is_monotonic(before);
        assert(g.after_advances(k) == before.after_speed_update().after_score_update());
    }
    lemma_speed_update_is_monotonic(g.after_advances(k));
    assert(g.after_advances(k + 1) == g.after_advances(
        k,
    ).after_speed_update().after_score_update());
}

} // verus!
