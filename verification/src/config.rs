//! Everything a game is tuned by, and the rule that rejects settings the
//! game cannot run on.

use vstd::prelude::*;

verus! {

/// Noise samples and thresholds are whole numbers of thousandths.
pub const NOISE_SCALE: i32 = 1000;

pub const IY: i32 = 9;

pub const PX: u16 = 23;

pub const MIN_FLAT: i32 = -460;

pub const MAX_FLAT: i32 = 460;

pub const X_STEP: i32 = 150;

pub const Y_STEP: i32 = 30;

pub const MIN_OBST_LENGTH: u32 = 3;

pub const MAX_OBST_LENGTH: u32 = 6;

pub const MIN_OBST_DIST: u32 = 7;

pub const MAX_OBST_DIST: u32 = 70;

pub const MIN_INCL_DIST: u32 = 2;

pub const INITIAL_SPEED: u32 = 100;

pub const MAX_SPEED: u32 = 40;

pub const SPEED_DECAY_PERCENT: u8 = 90;

pub const SPEED_CHANGE_INTERVAL: u32 = 300;

pub const INITIAL_AIR_TIME: u16 = 7;

pub const AIR_TIME_GAIN: u16 = 7;

pub const JUMP_TO_MAX_HEIGHT_DIST: u16 = 3;

/// The settings of one game.
#[derive(Copy, Clone, Debug, PartialEq, Eq)]
pub struct Config {
    /// Number of terrain columns on screen.
    pub visible_width: u16,
    /// Units kept beyond the visible width. The buffer is refilled by chunks
    /// of this size, once every that many scroll steps.
    pub lookahead: u16,
    /// Screen row of flat ground under a running player.
    pub baseline_row: i32,
    /// Index of the terrain column the player stands over.
    pub player_column: u16,
    /// A noise sample at or below this value asks for a downward slope.
    pub min_flat: i32,
    /// A noise sample at or above this value asks for an upward slope.
    pub max_flat: i32,
    /// Horizontal distance between two noise samples.
    pub x_step: i32,
    /// Vertical distance between two noise samples.
    pub y_step: i32,
    /// Smallest obstacle run length that is drawn as a target.
    pub min_obst_length: u32,
    /// Obstacle run-length targets stay below this value.
    pub max_obst_length: u32,
    /// Smallest obstacle distance that is drawn as a target.
    pub min_obst_dist: u32,
    /// Obstacle-distance targets stay below this value.
    pub max_obst_dist: u32,
    /// An obstacle needs more than this many flat units since the last slope.
    pub min_incl_dist: u32,
    /// Milliseconds between two ticks at the start of a run.
    pub initial_speed: u32,
    /// The tick interval is no longer shortened once it is at or below this.
    pub max_speed: u32,
    /// Percentage of the tick interval that one speed-up keeps.
    pub speed_decay_percent: u8,
    /// The game speeds up whenever the score is a multiple of this.
    pub speed_change_interval: u32,
    /// Ticks a jump may stay in the air at the start of a run.
    pub initial_air_time: u16,
    /// Air time added as the tick interval approaches zero.
    pub air_time_gain: u16,
    /// Ticks a jump climbs before it hangs at its highest row.
    pub ascent_dist: u16,
}

/// Why a configuration is rejected.
#[derive(Copy, Clone, Debug, PartialEq, Eq, Structural)]
pub enum ConfigError {
    /// The lookahead is zero, so no chunk could ever be generated.
    EmptyChunk,
    /// The visible width does not reach past the farthest landing column.
    WidthBelowLookahead,
    /// The lower noise threshold is not below the upper one.
    NoiseThresholds,
    /// No obstacle run length of at least one lies in the configured range.
    ObstacleLength,
    /// No obstacle distance lies in the configured range.
    ObstacleDistance,
    /// The tick interval, its decay or the score interval is unusable.
    TickInterval,
    /// A jump would never reach its highest row, or never leave it.
    AirTime,
}

impl Config {
    /// The farthest column a jump can land on.
    pub open spec fn landing_reach(self) -> int {
        self.player_column + self.initial_air_time + self.air_time_gain
    }

    pub open spec fn geometry_ok(self) -> bool {
        self.landing_reach() < self.visible_width
    }

    pub open spec fn noise_ok(self) -> bool {
        self.min_flat < self.max_flat
    }

    pub open spec fn obstacle_length_ok(self) -> bool {
        1 <= self.min_obst_length < self.max_obst_length
    }

    pub open spec fn obstacle_distance_ok(self) -> bool {
        self.min_obst_dist < self.max_obst_dist
    }

    pub open spec fn tick_interval_ok(self) -> bool {
        &&& self.initial_speed >= 1
        &&& 1 <= self.speed_decay_percent <= 100
        &&& self.speed_change_interval >= 1
    }

    pub open spec fn air_time_ok(self) -> bool {
        1 <= self.ascent_dist < self.initial_air_time
    }

    /// A game can be built on this configuration.
    pub open spec fn valid(self) -> bool {
        &&& self.lookahead >= 1
        &&& self.geometry_ok()
        &&& self.noise_ok()
        &&& self.obstacle_length_ok()
        &&& self.obstacle_distance_ok()
        &&& self.tick_interval_ok()
        &&& self.air_time_ok()
    }

    /// The first reason, in the order of `ConfigError`, for which this
    /// configuration is rejected.
    pub open spec fn rejection(self) -> Option<ConfigError> {
        if self.lookahead == 0 {
            Some(ConfigError::EmptyChunk)
        } else if !self.geometry_ok() {
            Some(ConfigError::WidthBelowLookahead)
        } else if !self.noise_ok() {
            Some(ConfigError::NoiseThresholds)
        } else if !self.obstacle_length_ok() {
            Some(ConfigError::ObstacleLength)
        } else if !self.obstacle_distance_ok() {
            Some(ConfigError::ObstacleDistance)
        } else if !self.tick_interval_ok() {
            Some(ConfigError::TickInterval)
        } else if !self.air_time_ok() {
            Some(ConfigError::AirTime)
        } else {
            None
        }
    }

    /// The stock settings for a screen of the given width.
    pub fn standard(visible_width: u16) -> (cfg: Config)
        ensures
            cfg == (Config {
                visible_width,
                lookahead: (visible_width / 3 + 1) as u16,
                baseline_row: IY,
                player_column: PX,
                min_flat: MIN_FLAT,
                max_flat: MAX_FLAT,
                x_step: X_STEP,
                y_step: Y_STEP,
                min_obst_length: MIN_OBST_LENGTH,
                max_obst_length: MAX_OBST_LENGTH,
                min_obst_dist: MIN_OBST_DIST,
                max_obst_dist: MAX_OBST_DIST,
                min_incl_dist: MIN_INCL_DIST,
                initial_speed: INITIAL_SPEED,
                max_speed: MAX_SPEED,
                speed_decay_percent: SPEED_DECAY_PERCENT,
                speed_change_interval: SPEED_CHANGE_INTERVAL,
                initial_air_time: INITIAL_AIR_TIME,
                air_time_gain: AIR_TIME_GAIN,
                ascent_dist: JUMP_TO_MAX_HEIGHT_DIST,
            }),
            cfg.valid() <==> visible_width >= 38,
    {
        Config {
            visible_width,
            lookahead: visible_width / 3 + 1,
            baseline_row: IY,
            player_column: PX,
            min_flat: MIN_FLAT,
            max_flat: MAX_FLAT,
            x_step: X_STEP,
            y_step: Y_STEP,
            min_obst_length: MIN_OBST_LENGTH,
            max_obst_length: MAX_OBST_LENGTH,
            min_obst_dist: MIN_OBST_DIST,
            max_obst_dist: MAX_OBST_DIST,
            min_incl_dist: MIN_INCL_DIST,
            initial_speed: INITIAL_SPEED,
            max_speed: MAX_SPEED,
            speed_decay_percent: SPEED_DECAY_PERCENT,
            speed_change_interval: SPEED_CHANGE_INTERVAL,
            initial_air_time: INITIAL_AIR_TIME,
            air_time_gain: AIR_TIME_GAIN,
            ascent_dist: JUMP_TO_MAX_HEIGHT_DIST,
        }
    }

    /// Accepts exactly the valid configurations, and names the first reason
    /// for which any other one is rejected.
    pub fn validate(&self) -> (res: Result<(), ConfigError>)
        ensures
            res is Ok <==> self.valid(),
            res matches Err(e) ==> self.rejection() == Some(e),
    {
        if self.lookahead == 0 {
            return Err(ConfigError::EmptyChunk);
        }
        let reach: u32 = self.player_column as u32 + self.initial_air_time as u32
            + self.air_time_gain as u32;
        if reach >= self.visible_width as u32 {
            return Err(ConfigError::WidthBelowLookahead);
        }
        if self.min_flat >= self.max_flat {
            return Err(ConfigError::NoiseThresholds);
        }
        if self.min_obst_length == 0 || self.min_obst_length >= self.max_obst_length {
            return Err(ConfigError::ObstacleLength);
        }
        if self.min_obst_dist >= self.max_obst_dist {
            return Err(ConfigError::ObstacleDistance);
        }
        if self.initial_speed == 0 || self.speed_decay_percent == 0
            || self.speed_decay_percent > 100 || self.speed_change_interval == 0 {
            return Err(ConfigError::TickInterval);
        }
        if self.ascent_dist == 0 || self.ascent_dist >= self.initial_air_time {
            return Err(ConfigError::AirTime);
        }
        Ok(())
    }

    /// Where the `i`-th noise sample of a chunk is taken, in thousandths:
    /// both coordinates advance by their step per unit, from a common
    /// offset.
    pub fn noise_point(&self, offset: i32, i: u16) -> (p: (i64, i64))
        ensures
            p.0 == self.x_step * i + offset,
            p.1 == self.y_step * i + offset,
    {
        assert(-0x8000_0000 * 0xffff <= self.x_step * i <= 0x7fff_ffff * 0xffff)
            by (nonlinear_arith)
            requires
                -0x8000_0000 <= self.x_step <= 0x7fff_ffff,
                0 <= i <= 0xffff,
        ;
        assert(-0x8000_0000 * 0xffff <= self.y_step * i <= 0x7fff_ffff * 0xffff)
            by (nonlinear_arith)
            requires
                -0x8000_0000 <= self.y_step <= 0x7fff_ffff,
                0 <= i <= 0xffff,
        ;
        let x: i64 = self.x_step as i64 * i as i64 + offset as i64;
        let y: i64 = self.y_step as i64 * i as i64 + offset as i64;
        (x, y)
    }
}

} // verus!
