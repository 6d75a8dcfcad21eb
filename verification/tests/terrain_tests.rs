use dinoclone::colors::{PAIR_GREEN, PAIR_WHITE};
use dinoclone::config::Config;
use dinoclone::generator::{generate, step, GenState, Targets};
use dinoclone::terrain::{TerrainTile, TerrainType, TerrainUnit};

fn counters(incl: u32, obst: u32, len: u32, next_len: u32, next_dist: u32) -> GenState {
    GenState {
        last_incl_dist: incl,
        last_obst_dist: obst,
        obst_len: len,
        next_obst_len: next_len,
        next_obst_dist: next_dist,
    }
}

fn same_rolls(n: usize, length: u32, distance: u32) -> Vec<Targets> {
    let mut rolls = Vec::new();
    for _ in 0..n {
        rolls.push(Targets { length, distance });
    }
    rolls
}

fn shape(units: &Vec<TerrainUnit>) -> Vec<(TerrainType, i32, bool)> {
    units.iter().map(|u| (u.unit_type, u.initial_y, u.obstacle)).collect()
}

#[test]
fn tile_holds_its_character_and_colour() {
    let t = TerrainTile::new('_', PAIR_GREEN);
    assert_eq!(t.tile_char, 95);
    assert_eq!(t.color_pair_id, 1);
    let hash = TerrainTile::new('#', PAIR_WHITE);
    assert_eq!(hash.tile_char, 35);
    assert_eq!(hash.color_pair_id, 0);
}

#[test]
fn flat_unit_wears_an_underscore_over_two_dots() {
    let u = TerrainUnit::new_flat(9, true);
    assert_eq!(u.unit_type, TerrainType::Flat);
    assert_eq!(u.initial_y, 9);
    assert!(u.obstacle);
    assert_eq!(u.tiles[0], TerrainTile { tile_char: '_' as u32, color_pair_id: PAIR_GREEN });
    assert_eq!(u.tiles[1], TerrainTile { tile_char: '.' as u32, color_pair_id: PAIR_WHITE });
    assert_eq!(u.tiles[2], TerrainTile { tile_char: '.' as u32, color_pair_id: PAIR_WHITE });
}

#[test]
fn slopes_wear_a_slash_and_never_an_obstacle() {
    let up = TerrainUnit::new_up(-4);
    assert_eq!(up.unit_type, TerrainType::Up);
    assert_eq!(up.initial_y, -4);
    assert!(!up.obstacle);
    assert_eq!(up.tiles[0].tile_char, '/' as u32);
    let down = TerrainUnit::new_down(12);
    assert_eq!(down.unit_type, TerrainType::Down);
    assert_eq!(down.initial_y, 12);
    assert!(!down.obstacle);
    assert_eq!(down.tiles[0].tile_char, '\\' as u32);
    assert_eq!(down.tiles[1].tile_char, '.' as u32);
}

#[test]
fn marker_unit_is_flat_with_hash_tiles() {
    let m = TerrainUnit::new_marker(9);
    assert_eq!(m.unit_type, TerrainType::Flat);
    assert!(!m.obstacle);
    assert_eq!(m.tiles[0].tile_char, '_' as u32);
    assert_eq!(m.tiles[1].tile_char, '#' as u32);
    assert_eq!(m.tiles[2].tile_char, '#' as u32);
}

#[test]
fn slope_deltas_are_one_zero_and_minus_one() {
    assert_eq!(TerrainType::Up.delta(), 1);
    assert_eq!(TerrainType::Flat.delta(), 0);
    assert_eq!(TerrainType::Down.delta(), -1);
}

#[test]
fn noise_thresholds_choose_the_slope() {
    let cfg = Config::standard(80);
    let pred = TerrainUnit::new_flat(9, false);
    let roll = Targets { length: 3, distance: 7 };
    let mut st = counters(0, 0, 0, 3, 7);
    assert_eq!(step(&cfg, &mut st, &pred, -460, roll).unit_type, TerrainType::Down);
    let mut st = counters(0, 0, 0, 3, 7);
    assert_eq!(step(&cfg, &mut st, &pred, -459, roll).unit_type, TerrainType::Flat);
    let mut st = counters(0, 0, 0, 3, 7);
    assert_eq!(step(&cfg, &mut st, &pred, 460, roll).unit_type, TerrainType::Up);
    let mut st = counters(0, 0, 0, 3, 7);
    assert_eq!(step(&cfg, &mut st, &pred, 459, roll).unit_type, TerrainType::Flat);
}

#[test]
fn heights_follow_the_slopes() {
    let cfg = Config::standard(80);
    let pred = TerrainUnit::new_flat(9, false);
    let noise = vec![500, 500, 0, -500, -500, 0, 500];
    let rolls = same_rolls(7, 3, 7);
    let mut st = counters(0, 0, 0, 3, 7);
    let units = generate(&cfg, &mut st, &pred, &noise, &rolls);
    assert_eq!(
        shape(&units),
        vec![
            (TerrainType::Up, 8, false),
            (TerrainType::Up, 7, false),
            (TerrainType::Flat, 7, false),
            (TerrainType::Down, 8, false),
            (TerrainType::Down, 9, false),
            (TerrainType::Flat, 9, false),
            (TerrainType::Up, 8, false),
        ]
    );
    assert_eq!(st, counters(0, 7, 0, 3, 7));
}

#[test]
fn a_climb_is_one_less_and_a_descent_one_more_than_the_unit_before() {
    let cfg = Config::standard(80);
    let roll = Targets { length: 3, distance: 7 };
    for before in [
        TerrainUnit::new_flat(4, false),
        TerrainUnit::new_up(4),
        TerrainUnit::new_down(4),
    ] {
        let mut st = counters(0, 0, 0, 3, 7);
        let unit = step(&cfg, &mut st, &before, 900, roll);
        if before.unit_type != TerrainType::Down {
            assert_eq!((unit.unit_type, unit.initial_y), (TerrainType::Up, 3));
        } else {
            assert_eq!((unit.unit_type, unit.initial_y), (TerrainType::Flat, 4));
        }
        let mut st = counters(0, 0, 0, 3, 7);
        let unit = step(&cfg, &mut st, &before, -900, roll);
        if before.unit_type != TerrainType::Up {
            assert_eq!((unit.unit_type, unit.initial_y), (TerrainType::Down, 5));
        } else {
            assert_eq!((unit.unit_type, unit.initial_y), (TerrainType::Flat, 4));
        }
        let mut st = counters(0, 0, 0, 3, 7);
        let unit = step(&cfg, &mut st, &before, 0, roll);
        assert_eq!((unit.unit_type, unit.initial_y), (TerrainType::Flat, 4));
    }
}

#[test]
fn heights_fit_at_the_ends_of_the_integers() {
    let cfg = Config::standard(80);
    let roll = Targets { length: 3, distance: 7 };
    let mut st = counters(0, 0, 0, 3, 7);
    let top = TerrainUnit::new_flat(i32::MIN, false);
    assert_eq!(step(&cfg, &mut st, &top, 0, roll).initial_y, i32::MIN);
    assert_eq!(step(&cfg, &mut st, &top, -900, roll).initial_y, i32::MIN + 1);
    let bottom = TerrainUnit::new_flat(i32::MAX, false);
    assert_eq!(step(&cfg, &mut st, &bottom, 900, roll).initial_y, i32::MAX - 1);
}

#[test]
fn a_climb_is_not_followed_by_a_descent() {
    let cfg = Config::standard(80);
    let pred = TerrainUnit::new_flat(9, false);
    let noise = vec![500, -500, -500, 500, 500];
    let rolls = same_rolls(5, 3, 7);
    let mut st = counters(0, 0, 0, 3, 7);
    let units = generate(&cfg, &mut st, &pred, &noise, &rolls);
    assert_eq!(
        shape(&units),
        vec![
            (TerrainType::Up, 8, false),
            (TerrainType::Flat, 8, false),
            (TerrainType::Down, 9, false),
            (TerrainType::Flat, 9, false),
            (TerrainType::Up, 8, false),
        ]
    );
}

#[test]
fn one_flat_unit_between_opposite_slopes_is_possible() {
    // The configured incline distance of two only gates obstacles.
    let cfg = Config::standard(80);
    assert_eq!(cfg.min_incl_dist, 2);
    let pred = TerrainUnit::new_flat(9, false);
    let noise = vec![500, 0, -500];
    let rolls = same_rolls(3, 3, 7);
    let mut st = counters(0, 0, 0, 3, 7);
    let units = generate(&cfg, &mut st, &pred, &noise, &rolls);
    assert_eq!(units[0].unit_type, TerrainType::Up);
    assert_eq!(units[1].unit_type, TerrainType::Flat);
    assert_eq!(units[2].unit_type, TerrainType::Down);
}

#[test]
fn obstacle_run_reaches_its_target_and_rerolls() {
    let cfg = Config::standard(80);
    let pred = TerrainUnit::new_flat(9, false);
    let noise = vec![0; 6];
    let rolls = same_rolls(6, 4, 10);
    let mut st = counters(3, 8, 0, 3, 7);
    let units = generate(&cfg, &mut st, &pred, &noise, &rolls);
    let flags: Vec<bool> = units.iter().map(|u| u.obstacle).collect();
    assert_eq!(flags, vec![true, true, true, false, false, false]);
    assert_eq!(st, counters(9, 3, 0, 4, 10));
}

#[test]
fn obstacle_needs_distance_from_run_and_slope() {
    let cfg = Config::standard(80);
    let pred = TerrainUnit::new_flat(9, false);
    let roll = Targets { length: 3, distance: 7 };
    // obstacle distance equal to the target: not yet
    let mut st = counters(3, 7, 0, 3, 7);
    assert!(!step(&cfg, &mut st, &pred, 0, roll).obstacle);
    assert_eq!(st, counters(4, 8, 0, 3, 7));
    // incline distance equal to the minimum: not yet
    let mut st = counters(2, 8, 0, 3, 7);
    assert!(!step(&cfg, &mut st, &pred, 0, roll).obstacle);
    assert_eq!(st, counters(3, 9, 0, 3, 7));
    // both exceeded
    let mut st = counters(3, 8, 0, 3, 7);
    assert!(step(&cfg, &mut st, &pred, 0, roll).obstacle);
    assert_eq!(st, counters(4, 9, 1, 3, 7));
}

#[test]
fn no_slope_during_an_obstacle_run() {
    let cfg = Config::standard(80);
    let pred = TerrainUnit::new_flat(9, true);
    let roll = Targets { length: 3, distance: 7 };
    let mut st = counters(4, 9, 1, 3, 7);
    let unit = step(&cfg, &mut st, &pred, 900, roll);
    assert_eq!(unit.unit_type, TerrainType::Flat);
    assert!(unit.obstacle);
    let mut st = counters(4, 9, 1, 3, 7);
    let unit = step(&cfg, &mut st, &pred, -900, roll);
    assert_eq!(unit.unit_type, TerrainType::Flat);
}

#[test]
fn slope_resets_the_incline_counter() {
    let cfg = Config::standard(80);
    let pred = TerrainUnit::new_flat(9, false);
    let roll = Targets { length: 3, distance: 7 };
    let mut st = counters(5, 5, 0, 3, 7);
    let unit = step(&cfg, &mut st, &pred, 700, roll);
    assert_eq!(unit.unit_type, TerrainType::Up);
    assert_eq!(st, counters(0, 6, 0, 3, 7));
}

#[test]
fn distance_counters_stop_at_the_largest_value() {
    let cfg = Config::standard(80);
    let pred = TerrainUnit::new_flat(9, false);
    let roll = Targets { length: 3, distance: 7 };
    let mut st = counters(u32::MAX, u32::MAX, 3, 3, 7);
    let unit = step(&cfg, &mut st, &pred, 0, roll);
    assert!(!unit.obstacle);
    assert_eq!(st, counters(u32::MAX, 1, 0, 3, 7));
    let mut st = counters(u32::MAX, u32::MAX, 0, 0, u32::MAX);
    let _ = step(&cfg, &mut st, &pred, 700, roll);
    assert_eq!(st, counters(0, u32::MAX, 0, 0, u32::MAX));
}

#[test]
fn chunking_is_invisible() {
    let cfg = Config::standard(80);
    let pred = TerrainUnit::new_flat(9, false);
    let mut noise = Vec::new();
    let mut rolls = Vec::new();
    for i in 0..60u32 {
        noise.push(match i % 17 {
            0 | 1 => 600,
            9 => -700,
            _ => 0,
        });
        rolls.push(Targets { length: 3 + i % 3, distance: 7 + i % 5 });
    }
    let mut whole_state = counters(3, 8, 0, 3, 7);
    let whole = generate(&cfg, &mut whole_state, &pred, &noise, &rolls);
    for cut in [0usize, 1, 2, 19, 33, 59, 60] {
        let mut st = counters(3, 8, 0, 3, 7);
        let mut parts =
            generate(&cfg, &mut st, &pred, &noise[..cut].to_vec(), &rolls[..cut].to_vec());
        let last = if cut == 0 { pred } else { parts[cut - 1] };
        let mut rest =
            generate(&cfg, &mut st, &last, &noise[cut..].to_vec(), &rolls[cut..].to_vec());
        parts.append(&mut rest);
        assert_eq!(parts, whole);
        assert_eq!(st, whole_state);
    }
    assert!(whole.iter().any(|u| u.obstacle));
    assert!(whole.iter().any(|u| u.unit_type == TerrainType::Up));
}

#[test]
fn empty_generation_changes_nothing() {
    let cfg = Config::standard(80);
    let pred = TerrainUnit::new_flat(9, false);
    let mut st = counters(1, 2, 0, 3, 7);
    let units = generate(&cfg, &mut st, &pred, &Vec::new(), &Vec::new());
    assert!(units.is_empty());
    assert_eq!(st, counters(1, 2, 0, 3, 7));
}
