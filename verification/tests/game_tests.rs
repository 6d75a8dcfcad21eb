use dinoclone::config::{Config, ConfigError};
use dinoclone::game::Game;

fn game() -> Game {
    Game::new(&Config::standard(80), 12).unwrap()
}

#[test]
fn new_game_starts_at_the_initial_interval_and_air_time() {
    let g = game();
    assert!(g.playing);
    assert!(!g.pause);
    assert_eq!(g.score, 0);
    assert_eq!(g.speed, 100);
    assert_eq!(g.max_air_time, 7);
    assert_eq!(g.highscore, 12);
    assert_eq!(g.config, Config::standard(80));
}

#[test]
fn standard_settings_hold_the_stock_numbers() {
    let cfg = Config::standard(80);
    assert_eq!(cfg.visible_width, 80);
    assert_eq!(cfg.lookahead, 27);
    assert_eq!(cfg.baseline_row, 9);
    assert_eq!(cfg.player_column, 23);
    assert_eq!((cfg.min_flat, cfg.max_flat), (-460, 460));
    assert_eq!((cfg.x_step, cfg.y_step), (150, 30));
    assert_eq!((cfg.min_obst_length, cfg.max_obst_length), (3, 6));
    assert_eq!((cfg.min_obst_dist, cfg.max_obst_dist), (7, 70));
    assert_eq!(cfg.min_incl_dist, 2);
    assert_eq!((cfg.initial_speed, cfg.max_speed), (100, 40));
    assert_eq!(cfg.speed_decay_percent, 90);
    assert_eq!(cfg.speed_change_interval, 300);
    assert_eq!((cfg.initial_air_time, cfg.air_time_gain, cfg.ascent_dist), (7, 7, 3));
    assert_eq!(cfg.validate(), Ok(()));
    assert_eq!(Config::standard(0).lookahead, 1);
    assert_eq!(Config::standard(u16::MAX).lookahead, 21846);
}

#[test]
fn unusable_tick_interval_is_rejected() {
    let mut cfg = Config::standard(80);
    cfg.initial_speed = 0;
    assert_eq!(Game::new(&cfg, 0).err(), Some(ConfigError::TickInterval));
    let mut cfg = Config::standard(80);
    cfg.speed_decay_percent = 0;
    assert_eq!(cfg.validate(), Err(ConfigError::TickInterval));
    cfg.speed_decay_percent = 101;
    assert_eq!(cfg.validate(), Err(ConfigError::TickInterval));
    cfg.speed_decay_percent = 100;
    assert_eq!(cfg.validate(), Ok(()));
    cfg.speed_change_interval = 0;
    assert_eq!(cfg.validate(), Err(ConfigError::TickInterval));
}

#[test]
fn errors_come_in_a_fixed_order() {
    let mut cfg = Config::standard(80);
    cfg.ascent_dist = 0;
    assert_eq!(cfg.validate(), Err(ConfigError::AirTime));
    cfg.initial_speed = 0;
    assert_eq!(cfg.validate(), Err(ConfigError::TickInterval));
    cfg.min_obst_dist = 100;
    assert_eq!(cfg.validate(), Err(ConfigError::ObstacleDistance));
    cfg.max_obst_length = 1;
    assert_eq!(cfg.validate(), Err(ConfigError::ObstacleLength));
    cfg.max_flat = -1000;
    assert_eq!(cfg.validate(), Err(ConfigError::NoiseThresholds));
    cfg.visible_width = 20;
    assert_eq!(cfg.validate(), Err(ConfigError::WidthBelowLookahead));
    cfg.lookahead = 0;
    assert_eq!(cfg.validate(), Err(ConfigError::EmptyChunk));
}

#[test]
fn noise_points_advance_by_their_steps() {
    let cfg = Config::standard(80);
    assert_eq!(cfg.noise_point(0, 0), (0, 0));
    assert_eq!(cfg.noise_point(250, 0), (250, 250));
    assert_eq!(cfg.noise_point(250, 1), (400, 280));
    assert_eq!(cfg.noise_point(999, 26), (4899, 1779));
    let mut wide = cfg;
    wide.x_step = i32::MIN;
    wide.y_step = i32::MAX;
    assert_eq!(
        wide.noise_point(i32::MIN, u16::MAX),
        (-2147483648i64 * 65535 - 2147483648, 2147483647i64 * 65535 - 2147483648)
    );
}

#[test]
fn speed_changes_only_on_multiples_of_the_score_interval() {
    let mut g = game();
    g.update_speed();
    assert_eq!((g.speed, g.max_air_time), (100, 7));
    g.score = 299;
    g.update_speed();
    assert_eq!((g.speed, g.max_air_time), (100, 7));
    g.score = 301;
    g.update_speed();
    assert_eq!((g.speed, g.max_air_time), (100, 7));
    g.score = 300;
    g.update_speed();
    assert_eq!((g.speed, g.max_air_time), (90, 7));
}

#[test]
fn interval_decays_to_its_floor_and_air_time_follows() {
    let mut g = game();
    let mut seen = Vec::new();
    for k in 1..=10u32 {
        g.score = 300 * k;
        g.update_speed();
        seen.push((g.speed, g.max_air_time));
    }
    assert_eq!(
        seen,
        vec![
            (90, 7),
            (81, 8),
            (72, 8),
            (64, 9),
            (57, 10),
            (51, 10),
            (45, 10),
            (40, 11),
            (40, 11),
            (40, 11),
        ]
    );
}

#[test]
fn interval_may_pass_below_the_floor_once() {
    let mut cfg = Config::standard(80);
    cfg.speed_decay_percent = 50;
    cfg.max_speed = 40;
    let mut g = Game::new(&cfg, 0).unwrap();
    g.score = 300;
    g.update_speed();
    assert_eq!((g.speed, g.max_air_time), (50, 10));
    g.update_speed();
    assert_eq!((g.speed, g.max_air_time), (25, 12));
    g.update_speed();
    assert_eq!((g.speed, g.max_air_time), (25, 12));
}

#[test]
fn difficulty_is_monotonic_over_a_run() {
    for percent in [1u8, 37, 90, 99, 100] {
        let mut cfg = Config::standard(80);
        cfg.speed_decay_percent = percent;
        cfg.speed_change_interval = 7;
        cfg.max_speed = 3;
        let mut g = Game::new(&cfg, 0).unwrap();
        let mut changes = 0;
        for _ in 0..2000 {
            let (speed, air) = (g.speed, g.max_air_time);
            g.update_speed();
            g.update_score();
            assert!(g.speed <= speed);
            assert!(g.max_air_time >= air);
            assert!(g.max_air_time <= 14);
            assert!(g.speed >= 0);
            if g.speed != speed {
                changes += 1;
            }
        }
        assert_eq!(g.score, 2000);
        assert_eq!(changes > 0, percent < 100);
    }
}

#[test]
fn score_counts_every_tick() {
    let mut g = game();
    for k in 1..=5 {
        g.update_score();
        assert_eq!(g.score, k);
    }
    assert_eq!(g.speed, 100);
}

#[test]
fn highscore_follows_the_score_once_it_is_passed() {
    let mut g = game();
    g.score = 12;
    g.update_highscore();
    assert_eq!(g.highscore, 12);
    g.score = 13;
    g.update_highscore();
    assert_eq!(g.highscore, 13);
    g.score = 2;
    g.update_highscore();
    assert_eq!(g.highscore, 13);
}

#[test]
fn tick_is_due_once_more_than_the_interval_has_passed() {
    let g = game();
    assert!(!g.tick_due(0));
    assert!(!g.tick_due(100));
    assert!(g.tick_due(101));
    assert!(!g.tick_due(-5));
}
