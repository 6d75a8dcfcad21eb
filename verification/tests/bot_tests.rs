use dinoclone::bot::{autoplay, bot_wants_jump};
use dinoclone::buffer::Terrain;
use dinoclone::config::Config;
use dinoclone::game::Game;
use dinoclone::player::{Player, PlayerState};
use dinoclone::terrain::TerrainUnit;

fn world() -> (Player, Terrain, Game) {
    let cfg = Config::standard(80);
    let mut p = Player::new(&cfg).unwrap();
    p.state = PlayerState::Running;
    (p, Terrain::new(cfg, 7).unwrap(), Game::new(&cfg, 0).unwrap())
}

#[test]
fn bot_does_not_jump_onto_an_obstacle() {
    let (mut p, mut t, g) = world();
    assert_eq!(g.max_air_time, 7);
    t.vec[23 + 7].obstacle = true;
    autoplay(&mut p, &t, &g);
    assert_eq!(p.state, PlayerState::Running);
    assert!(!bot_wants_jump(&t, &g));
}

#[test]
fn bot_jumps_over_an_obstacle_one_column_before_the_landing() {
    let (mut p, mut t, g) = world();
    t.vec[23 + 6].obstacle = true;
    autoplay(&mut p, &t, &g);
    assert_eq!(p.state, PlayerState::Jumping);
    assert!(!p.remember_jump);
}

#[test]
fn bot_runs_on_over_clear_ground() {
    let (mut p, t, g) = world();
    autoplay(&mut p, &t, &g);
    assert_eq!(p.state, PlayerState::Running);
}

#[test]
fn bot_scans_from_the_players_column_to_twice_half_the_air_time() {
    for column in 0..80usize {
        let (_, mut t, g) = world();
        t.vec[column].obstacle = true;
        assert_eq!(bot_wants_jump(&t, &g), (23..=29).contains(&column), "column {}", column);
    }
    for column in 0..80usize {
        let (_, mut t, mut g) = world();
        g.max_air_time = 8;
        t.vec[column].obstacle = true;
        assert_eq!(bot_wants_jump(&t, &g), (23..=30).contains(&column), "column {}", column);
    }
}

#[test]
fn bot_with_an_obstacle_in_reach_and_one_on_the_landing_stays_down() {
    let (mut p, mut t, g) = world();
    t.vec[25].obstacle = true;
    t.vec[30].obstacle = true;
    autoplay(&mut p, &t, &g);
    assert_eq!(p.state, PlayerState::Running);
}

#[test]
fn bot_jumps_from_flat_ground_only() {
    let (mut p, mut t, g) = world();
    t.vec[26].obstacle = true;
    t.vec[23] = TerrainUnit::new_up(9);
    autoplay(&mut p, &t, &g);
    assert_eq!(p.state, PlayerState::Running);
    assert!(!p.remember_jump);
    t.vec[23] = TerrainUnit::new_down(9);
    autoplay(&mut p, &t, &g);
    assert_eq!(p.state, PlayerState::Running);
    t.vec[23] = TerrainUnit::new_flat(9, false);
    autoplay(&mut p, &t, &g);
    assert_eq!(p.state, PlayerState::Jumping);
}

#[test]
fn bot_request_changes_nothing_in_the_air() {
    let (mut p, mut t, g) = world();
    t.vec[26].obstacle = true;
    p.state = PlayerState::Falling;
    let before = p;
    assert!(bot_wants_jump(&t, &g));
    autoplay(&mut p, &t, &g);
    assert_eq!(p, before);
}

#[test]
fn bot_treats_columns_beyond_the_buffer_as_clear() {
    let (_, mut t, mut g) = world();
    t.vec.truncate(28);
    t.vec[27].obstacle = true;
    assert!(bot_wants_jump(&t, &g));
    g.max_air_time = 1000;
    assert!(bot_wants_jump(&t, &g));
    g.max_air_time = 4;
    assert!(!bot_wants_jump(&t, &g));
    t.vec.truncate(20);
    assert!(!bot_wants_jump(&t, &g));
}

#[test]
fn bot_never_jumps_on_a_negative_or_zero_air_time() {
    let (_, mut t, mut g) = world();
    t.vec[24].obstacle = true;
    g.max_air_time = -1;
    assert!(!bot_wants_jump(&t, &g));
    g.max_air_time = 0;
    assert!(!bot_wants_jump(&t, &g));
    g.max_air_time = 1;
    assert!(!bot_wants_jump(&t, &g));
    g.max_air_time = 2;
    assert!(bot_wants_jump(&t, &g));
}
