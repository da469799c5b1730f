use forest_fire::position::Position;
use forest_fire::random::Rolls;
use forest_fire::tree::{Color, Tree, TreeState};
use forest_fire::tree_builder::TreeBuilder;

fn rolls(spawn: u32, spread: u32, regrow: u32) -> Rolls {
    Rolls { spawn, spread, regrow }
}

/// Draws that trigger nothing probabilistic.
fn quiet() -> Rolls {
    rolls(9999, 99, 99)
}

fn tree(age: i32, state: TreeState) -> Tree {
    TreeBuilder::new()
        .with_position(0, 0)
        .with_age(age)
        .with_state(state)
        .build()
}

#[test]
fn builder_defaults() {
    let t = TreeBuilder::new().build();
    assert_eq!(t.age, 0);
    assert_eq!(t.position.x, 0);
    assert_eq!(t.position.y, 0);
    assert_eq!(t.state, TreeState::Dormant);
}

#[test]
fn builder_sets_fields() {
    let t = TreeBuilder::new()
        .with_position(3, 7)
        .with_age(42)
        .with_state(TreeState::Burning(2))
        .build();
    assert_eq!(t.age, 42);
    assert_eq!(t.position, Position::new(3, 7));
    assert_eq!(t.state, TreeState::Burning(2));
}

#[test]
fn blank_tree() {
    let t = Tree::_new();
    assert_eq!(t.age, 0);
    assert_eq!(t.state, TreeState::Dormant);
}

#[test]
fn random_state_is_one_of_four() {
    for _ in 0..100 {
        let s = TreeState::_random();
        assert!(matches!(
            s,
            TreeState::Alive | TreeState::Burning(0) | TreeState::Dead(0) | TreeState::Dormant
        ));
    }
}

#[test]
fn is_ignited_only_for_burning() {
    assert!(tree(0, TreeState::Burning(3)).is_ignited());
    assert!(!tree(0, TreeState::Alive).is_ignited());
    assert!(!tree(0, TreeState::Lightning(0)).is_ignited());
    assert!(!tree(0, TreeState::Dead(0)).is_ignited());
    assert!(!tree(0, TreeState::Dormant).is_ignited());
}

#[test]
fn lightning_fuse_is_three_ticks() {
    let none: Vec<Tree> = Vec::new();
    let mut t = tree(5, TreeState::Lightning(0));
    t = t.step(&none, &quiet());
    assert_eq!(t.state, TreeState::Lightning(1));
    t = t.step(&none, &quiet());
    assert_eq!(t.state, TreeState::Lightning(2));
    t = t.step(&none, &quiet());
    assert_eq!(t.state, TreeState::Burning(0));
    assert_eq!(t.age, 5);
}

#[test]
fn burn_lasts_five_ticks() {
    let none: Vec<Tree> = Vec::new();
    let mut t = tree(5, TreeState::Burning(0));
    for v in 1..5 {
        t = t.step(&none, &quiet());
        assert_eq!(t.state, TreeState::Burning(v));
    }
    t = t.step(&none, &quiet());
    assert_eq!(t.state, TreeState::Dead(0));
    assert_eq!(t.age, 5);
}

#[test]
fn dormant_spawns_on_low_roll() {
    let none: Vec<Tree> = Vec::new();
    let t = tree(9, TreeState::Dormant).step(&none, &rolls(4, 0, 0));
    assert_eq!(t.state, TreeState::Alive);
    assert_eq!(t.age, 0);
}

#[test]
fn dormant_stays_on_high_roll() {
    let none: Vec<Tree> = Vec::new();
    let t = tree(9, TreeState::Dormant).step(&none, &rolls(5, 0, 0));
    assert_eq!(t.state, TreeState::Dormant);
    assert_eq!(t.age, 9);
}

#[test]
fn dead_clears_to_dormant_on_low_roll() {
    let none: Vec<Tree> = Vec::new();
    let t = tree(9, TreeState::Dead(700)).step(&none, &rolls(4, 0, 0));
    assert_eq!(t.state, TreeState::Dormant);
}

#[test]
fn young_dead_decays_and_cannot_regrow() {
    let none: Vec<Tree> = Vec::new();
    // Even an always-regrow roll cannot revive ground dead for 500 ticks or
    // fewer: the decay guard rules it out.
    let t = tree(0, TreeState::Dead(500)).step(&none, &rolls(9999, 0, 99));
    assert_eq!(t.state, TreeState::Dead(501));
}

#[test]
fn regrowth_threshold_matches_log_formula() {
    let none: Vec<Tree> = Vec::new();
    // At age 200 the regrowth comparison is roll/100 > ln(2) = 0.693...:
    // roll 70 regrows, roll 69 does not.
    let t = tree(200, TreeState::Dead(501)).step(&none, &rolls(9999, 0, 70));
    assert_eq!(t.state, TreeState::Alive);
    assert_eq!(t.age, 0);
    let t = tree(200, TreeState::Dead(501)).step(&none, &rolls(9999, 0, 69));
    assert_eq!(t.state, TreeState::Dead(501));
    assert_eq!(t.age, 200);
}

#[test]
fn regrowth_extremes_are_deterministic() {
    let none: Vec<Tree> = Vec::new();
    // Below age 100 the log is negative: every roll regrows.
    let t = tree(99, TreeState::Dead(501)).step(&none, &rolls(9999, 0, 0));
    assert_eq!(t.state, TreeState::Alive);
    // From age 272 on the log exceeds 1: no roll regrows.
    let t = tree(272, TreeState::Dead(501)).step(&none, &rolls(9999, 0, 99));
    assert_eq!(t.state, TreeState::Dead(501));
}

#[test]
fn lightning_neighbor_ignites_immediately() {
    let neighbors = vec![tree(0, TreeState::Lightning(1))];
    // Ignition by a neighboring strike overrides everything and leaves the
    // age untouched.
    let t = tree(7, TreeState::Alive).step(&neighbors, &quiet());
    assert_eq!(t.state, TreeState::Burning(0));
    assert_eq!(t.age, 7);
}

#[test]
fn spread_needs_more_than_one_burning_neighbor() {
    let neighbors = vec![tree(0, TreeState::Burning(0))];
    // A single burning neighbor never spreads, whatever the roll.
    let t = tree(0, TreeState::Alive).step(&neighbors, &rolls(9999, 0, 0));
    assert_eq!(t.state, TreeState::Alive);
    assert_eq!(t.age, 1);
}

#[test]
fn spread_chance_formula() {
    let neighbors = vec![tree(0, TreeState::Burning(2)), tree(0, TreeState::Burning(4))];
    // Two burning neighbors, age below one band: chance is 25 percent.
    let t = tree(0, TreeState::Alive).step(&neighbors, &rolls(9999, 24, 0));
    assert_eq!(t.state, TreeState::Burning(0));
    assert_eq!(t.age, 1);
    let t = tree(0, TreeState::Alive).step(&neighbors, &rolls(9999, 25, 0));
    assert_eq!(t.state, TreeState::Alive);
    assert_eq!(t.age, 1);
}

#[test]
fn spread_chance_rises_with_age() {
    let neighbors = vec![tree(0, TreeState::Burning(0)), tree(0, TreeState::Burning(0))];
    // One full age band adds 2 to the count: chance is 50 percent.
    let t = tree(10_000, TreeState::Alive).step(&neighbors, &rolls(9999, 49, 0));
    assert_eq!(t.state, TreeState::Burning(0));
    let t = tree(10_000, TreeState::Alive).step(&neighbors, &rolls(9999, 50, 0));
    assert_eq!(t.state, TreeState::Alive);
}

#[test]
fn old_alive_cell_never_dies_of_age() {
    let none: Vec<Tree> = Vec::new();
    // The senescence guard age >= 2000 holds, but the death chance
    // 1 - clamp(ln(age/100), 0, 1) is 0 there: the cell only ages.
    for age in [2000, 5000, 1_000_000] {
        let t = tree(age, TreeState::Alive).step(&none, &rolls(0, 0, 0));
        assert_eq!(t.state, TreeState::Alive);
        assert_eq!(t.age, age + 1);
    }
}

#[test]
fn alive_colors_by_age_band() {
    assert_eq!(tree(0, TreeState::Alive).draw(), Color::new(25, 160, 40, 255));
    assert_eq!(tree(9_999, TreeState::Alive).draw(), Color::new(25, 160, 40, 255));
    assert_eq!(tree(10_000, TreeState::Alive).draw(), Color::new(35, 110, 40, 255));
    assert_eq!(tree(20_000, TreeState::Alive).draw(), Color::new(55, 80, 40, 255));
    assert_eq!(tree(30_000, TreeState::Alive).draw(), Color::new(65, 75, 25, 255));
}

#[test]
fn state_colors() {
    assert_eq!(tree(0, TreeState::Burning(1)).draw(), Color::new(180, 120, 70, 255));
    assert_eq!(tree(0, TreeState::Dead(3)).draw(), Color::new(40, 40, 35, 255));
    assert_eq!(tree(0, TreeState::Dormant).draw(), Color::new(15, 30, 15, 255));
    assert_eq!(tree(0, TreeState::Lightning(0)).draw(), Color::new(0, 121, 241, 255));
}

#[test]
fn update_draws_its_own_randomness() {
    let none: Vec<Tree> = Vec::new();
    // The deterministic rules hold whatever update draws.
    let t = tree(3, TreeState::Lightning(2)).update(&none);
    assert_eq!(t.state, TreeState::Burning(0));
    let t = tree(3, TreeState::Burning(4)).update(&none);
    assert_eq!(t.state, TreeState::Dead(0));
}
