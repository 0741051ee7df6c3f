use bit_strategy::logic::strategy::decide;
use bit_strategy::models::base::Base;
use bit_strategy::models::base_level::BaseLevel;
use bit_strategy::models::board_action::BoardAction;
use bit_strategy::models::game::Game;
use bit_strategy::models::game_config::GameConfig;
use bit_strategy::models::game_state::GameState;
use bit_strategy::models::path_config::PathConfig;
use bit_strategy::models::player_action::PlayerAction;
use bit_strategy::models::position::Position;

fn base(uid: u32, player: u32, population: u32, level: u32, x: i32, y: i32, z: i32) -> Base {
    Base { position: Position { x, y, z }, uid, player, population, level, units_until_upgrade: 0 }
}

fn level(max_population: u32, spawn_rate: u32) -> BaseLevel {
    BaseLevel { max_population, upgrade_cost: 0, spawn_rate }
}

fn config(levels: Vec<BaseLevel>, grace_period: u32, death_rate: u32) -> GameConfig {
    GameConfig { base_levels: levels, paths: PathConfig { grace_period, death_rate } }
}

fn state(player: u32, bases: Vec<Base>, actions: Vec<BoardAction>, config: GameConfig) -> GameState {
    GameState { game: Game { player }, bases, actions, config }
}

fn in_flight(player: u32, amount: u32, distance: u32, traveled: u32) -> BoardAction {
    let mut a = BoardAction::default();
    a.player = player;
    a.amount = amount;
    a.progress.distance = distance;
    a.progress.traveled = traveled;
    a
}

fn action(src: u32, dest: u32, amount: u64) -> PlayerAction {
    PlayerAction { src, dest, amount }
}

#[test]
fn decide_test() {
    let want = vec![PlayerAction::default()];

    let result = decide(GameState::default());

    assert!(want == result)
}

#[test]
fn literal_attack_scenario() {
    let s = state(
        1,
        vec![base(1, 1, 100, 0, 0, 0, 0), base(2, 2, 10, 0, 10, 0, 0)],
        vec![],
        config(vec![level(50, 5)], 5, 1),
    );
    assert_eq!(decide(s), vec![action(1, 2, 69)]);
}

#[test]
fn upgrade_at_capacity_without_target() {
    let s = state(1, vec![base(4, 1, 100, 0, 0, 0, 0)], vec![], config(vec![level(100, 1)], 5, 1));
    assert_eq!(decide(s), vec![action(4, 4, 1)]);
}

#[test]
fn no_upgrade_below_capacity() {
    let s = state(1, vec![base(4, 1, 99, 0, 0, 0, 0)], vec![], config(vec![level(100, 1)], 5, 1));
    assert_eq!(decide(s), vec![]);
}

#[test]
fn upgrade_amount_is_excess_over_capacity_minus_one() {
    let s = state(1, vec![base(4, 1, 130, 0, 0, 0, 0)], vec![], config(vec![level(100, 1)], 5, 1));
    assert_eq!(decide(s), vec![action(4, 4, 31)]);
}

#[test]
fn attacker_that_would_die_upgrades_instead() {
    // A third player's action lands on every base before the attack would.
    let s = state(
        1,
        vec![base(1, 1, 100, 0, 0, 0, 0), base(2, 2, 10, 1, 10, 0, 0)],
        vec![in_flight(3, 1000, 3, 0)],
        config(vec![level(50, 0), level(2000, 100)], 5, 1),
    );
    let attacker = s.bases[0];
    let opponent = s.bases[1];
    assert_eq!(attacker.required_to_defeat(&opponent, &s.config, &s.actions), 16);
    assert!(attacker.will_die_within_in_n_ticks(10, &s.config, &s.actions));
    assert_eq!(decide(s), vec![action(1, 1, 51)]);
}

#[test]
fn feasibility_is_strict() {
    // required 66, reserve 50 / 4 = 12: a population of 78 is not enough.
    let at_limit = state(
        1,
        vec![base(1, 1, 78, 0, 0, 0, 0), base(2, 2, 10, 0, 10, 0, 0)],
        vec![],
        config(vec![level(50, 5)], 5, 1),
    );
    assert_eq!(decide(at_limit), vec![action(1, 1, 29)]);
    let above = state(
        1,
        vec![base(1, 1, 79, 0, 0, 0, 0), base(2, 2, 10, 0, 10, 0, 0)],
        vec![],
        config(vec![level(50, 5)], 5, 1),
    );
    assert_eq!(decide(above), vec![action(1, 2, 69)]);
}

#[test]
fn attack_amount_is_required_bits_plus_three() {
    let s = state(
        1,
        vec![base(1, 1, 500, 0, 0, 0, 0), base(2, 2, 40, 0, 3, 4, 12)],
        vec![in_flight(2, 30, 8, 2)],
        config(vec![level(200, 2)], 4, 3),
    );
    let required = s.bases[0].required_to_defeat(&s.bases[1], &s.config, &s.actions);
    // distance 13; projection 40 + 26 + (30 - 12) = 84; attrition (13 - 4) * 3 = 27
    assert_eq!(required, 84 + 1 + 27);
    assert_eq!(decide(s), vec![action(1, 2, required as u64 + 3)]);
}

#[test]
fn at_most_one_action_per_owned_base() {
    let s = state(
        1,
        vec![
            base(1, 1, 100, 0, 0, 0, 0),
            base(2, 2, 10, 0, 10, 0, 0),
            base(3, 1, 60, 0, 20, 0, 0),
            base(5, 1, 10, 0, 30, 0, 0),
        ],
        vec![],
        config(vec![level(50, 5)], 5, 1),
    );
    let out = decide(s);
    assert_eq!(out, vec![action(1, 2, 69), action(3, 3, 11)]);
    for i in 0..out.len() {
        for j in 0..out.len() {
            if i != j {
                assert_ne!(out[i].src, out[j].src);
            }
        }
    }
}

#[test]
fn closer_and_cheaper_target_wins() {
    let s = state(
        1,
        vec![
            base(1, 1, 1000, 0, 0, 0, 0),
            base(2, 2, 50, 0, 20, 0, 0),
            base(3, 2, 10, 0, 10, 0, 0),
        ],
        vec![],
        config(vec![level(100, 0)], 0, 0),
    );
    assert_eq!(decide(s), vec![action(1, 3, 14)]);
}

#[test]
fn closer_but_dearer_target_is_skipped() {
    let s = state(
        1,
        vec![
            base(1, 1, 1000, 0, 0, 0, 0),
            base(2, 2, 10, 0, 20, 0, 0),
            base(3, 2, 50, 0, 10, 0, 0),
        ],
        vec![],
        config(vec![level(100, 0)], 0, 0),
    );
    assert_eq!(decide(s), vec![action(1, 2, 14)]);
}

#[test]
fn farther_target_never_replaces_best() {
    let s = state(
        1,
        vec![
            base(1, 1, 1000, 0, 0, 0, 0),
            base(3, 2, 50, 0, 10, 0, 0),
            base(2, 2, 10, 0, 20, 0, 0),
        ],
        vec![],
        config(vec![level(100, 0)], 0, 0),
    );
    assert_eq!(decide(s), vec![action(1, 3, 54)]);
}

#[test]
fn neutral_attacker_takes_close_dearer_target() {
    let s = state(
        0,
        vec![
            base(0, 0, 1000, 0, 0, 0, 0),
            base(2, 2, 10, 0, 20, 0, 0),
            base(3, 2, 50, 0, 3, 0, 0),
        ],
        vec![],
        config(vec![level(100, 0)], 5, 1),
    );
    // uid 2: 10 + 1 + 15 = 26; uid 3 lies within the grace period: 50 + 1 = 51
    assert_eq!(decide(s), vec![action(0, 3, 54)]);
}

#[test]
fn projection_now_without_actions_is_population() {
    let b = base(7, 1, 42, 0, 0, 0, 0);
    let c = config(vec![level(100, 9)], 5, 1);
    assert_eq!(b.raw_population_in_n_ticks(0, &c, &vec![]), 42);
    assert_eq!(b.population_in_n_ticks(0, &c, &vec![]), 42);
    assert!(!b.will_die_within_in_n_ticks(0, &c, &vec![]));
}

#[test]
fn projection_counts_growth_and_landed_actions() {
    let b = base(7, 1, 42, 0, 0, 0, 0);
    let c = config(vec![level(100, 9)], 5, 1);
    let acts = vec![in_flight(1, 10, 4, 0), in_flight(2, 30, 6, 0), in_flight(2, 500, 9, 0)];
    // 42 + 6 * 9 + 10 - (30 - 1); the last action has not landed yet
    assert_eq!(b.raw_population_in_n_ticks(6, &c, &acts), 77);
    // at tick 9 the last one lands too: 42 + 81 + 10 - 29 - (500 - 4)
    assert_eq!(b.raw_population_in_n_ticks(9, &c, &acts), -392);
    assert_eq!(b.population_in_n_ticks(9, &c, &acts), 392);
    assert!(b.will_die_within_in_n_ticks(9, &c, &acts));
}

#[test]
fn neutral_base_does_not_grow() {
    let b = base(0, 0, 42, 0, 0, 0, 0);
    let c = config(vec![level(100, 9)], 5, 1);
    assert_eq!(b.population_in_n_ticks(6, &c, &vec![]), 42);
}

#[test]
fn attrition_never_increases_with_distance() {
    let paths = PathConfig { grace_period: 5, death_rate: 2 };
    let mut last = u32::MAX;
    for (d, want) in [(0u32, 10u32), (3, 10), (4, 10), (5, 10), (7, 6), (9, 2), (10, 0), (40, 0)] {
        let a = in_flight(1, 10, d, 0);
        let got = a.amount_at_target(&paths);
        assert_eq!(got, want);
        assert!(got <= last);
        last = got;
    }
}

#[test]
fn attrition_with_huge_rate_clamps_to_zero() {
    let paths = PathConfig { grace_period: 0, death_rate: u32::MAX };
    assert_eq!(in_flight(1, u32::MAX, u32::MAX, 0).amount_at_target(&paths), 0);
}

#[test]
fn arrival_is_remaining_distance() {
    assert_eq!(in_flight(1, 5, 12, 5).arrival_in_ticks(), 7);
    assert_eq!(in_flight(1, 5, 12, 12).arrival_in_ticks(), 0);
}

#[test]
fn distance_is_rounded_down() {
    let a = base(1, 1, 0, 0, 0, 0, 0);
    assert_eq!(a.distance_to(&base(2, 1, 0, 0, 3, 4, 0)), 5);
    assert_eq!(a.distance_to(&base(2, 1, 0, 0, 1, 1, 1)), 1);
    assert_eq!(a.distance_to(&base(2, 1, 0, 0, -2, -6, 9)), 11);
    assert_eq!(a.distance_to(&a), 0);
}

#[test]
fn distance_over_full_coordinate_range() {
    let a = base(1, 1, 0, 0, i32::MIN, i32::MIN, i32::MIN);
    let b = base(2, 1, 0, 0, i32::MAX, i32::MAX, i32::MAX);
    // floor(sqrt(3) * (2^32 - 1))
    assert_eq!(a.distance_between(&b), 7439101571);
}

#[test]
fn required_uses_magnitude_of_projection() {
    let attacker = base(1, 1, 100, 0, 0, 0, 0);
    let target = base(2, 2, 5, 0, 2, 0, 0);
    let c = config(vec![level(100, 0)], 5, 1);
    let acts = vec![in_flight(3, 25, 1, 0)];
    // projection 5 - 25 = -20
    assert_eq!(attacker.required_to_defeat(&target, &c, &acts), 21);
    assert_eq!(attacker.required_bits(&target, &c, &acts), 21);
}

#[test]
fn target_new_keeps_fields() {
    let b = base(9, 2, 3, 0, 1, 2, 3);
    let t = bit_strategy::models::target::Target::new(b, 17);
    assert_eq!(t.base, b);
    assert_eq!(t.required_bits, 17);
}

#[test]
fn defaults_are_zero() {
    let b = Base::default();
    assert_eq!(b, base(0, 0, 0, 0, 0, 0, 0));
    assert_eq!(BaseLevel::default(), level(0, 0));
    let a = BoardAction::default();
    assert_eq!((a.src, a.dest, a.amount, a.player), (0, 0, 0, 0));
    assert!(a.uuid.is_nil());
}
