use craps_sim::dice::Dice;
use craps_sim::game::play_game;
use craps_sim::game::MAX_ROLLS;
use craps_sim::sim::game_seed;
use craps_sim::sim::run_games;
use craps_sim::sim::simulate_game;
use craps_sim::sim::split_games;
use craps_sim::sim::standard_dice;
use craps_sim::sim::Batch;
use craps_sim::sim::DEFAULT_SEED;
use craps_sim::tally::Tally;

#[test]
fn the_default_seed() {
    assert_eq!(DEFAULT_SEED, 98050120);
}

#[test]
fn a_game_seed_is_the_root_plus_the_index() {
    assert_eq!(game_seed(10, 0), 10);
    assert_eq!(game_seed(10, 5), 15);
    assert_eq!(game_seed(98050120, 1_000_000), 99050120);
}

#[test]
fn a_game_seed_wraps_round() {
    assert_eq!(game_seed(u64::MAX, 1), 0);
    assert_eq!(game_seed(u64::MAX - 2, 10), 7);
}

#[test]
fn standard_dice_are_two_unrolled_six_sided_dice() {
    let mut dice = standard_dice(4);
    assert_eq!(dice.rolls(), 0);
    assert_eq!(dice.pip_sum(), 0);
    let mut twin = Dice::new(vec![6, 6], 4);
    for _ in 0..100 {
        dice.roll();
        twin.roll();
        assert_eq!(dice.pip_sum(), twin.pip_sum());
    }
}

#[test]
fn a_simulated_game_is_a_game_with_standard_dice() {
    for seed in 0..100u64 {
        let mut dice = standard_dice(seed);
        assert_eq!(simulate_game(seed), play_game(&mut dice));
    }
}

#[test]
fn no_games_give_an_empty_tally() {
    assert_eq!(run_games(DEFAULT_SEED, 0, 0), Tally::new());
    assert_eq!(run_games(DEFAULT_SEED, 17, 0), Tally::new());
}

#[test]
fn one_game_is_one_win_or_one_loss() {
    for first in 0..50usize {
        let tally = run_games(DEFAULT_SEED, first, 1);
        assert_eq!(tally.wins + tally.losses, 1);
        let outcome = simulate_game(game_seed(DEFAULT_SEED, first));
        assert_eq!(tally.rolls, outcome.rolls);
        assert_eq!(tally.wins == 1, outcome.win);
    }
}

#[test]
fn every_game_is_counted_once() {
    for count in [1usize, 2, 3, 10, 100, 1_000, 10_000] {
        let tally = run_games(DEFAULT_SEED, 0, count);
        assert_eq!(tally.wins + tally.losses, count);
    }
}

#[test]
fn every_game_takes_a_roll_and_not_too_many() {
    for count in [1usize, 2, 3, 10, 100, 1_000, 10_000] {
        let tally = run_games(DEFAULT_SEED, 0, count);
        assert!(tally.rolls >= count);
        assert!(tally.rolls < count * MAX_ROLLS);
    }
}

#[test]
fn the_win_rate_is_close_to_the_known_one() {
    let count = 1_000_000usize;
    let tally = run_games(DEFAULT_SEED, 0, count);
    let rate = tally.wins as f64 / count as f64;
    assert!((rate - 0.4929).abs() < 0.005, "win rate {}", rate);
}

#[test]
fn a_game_takes_about_three_and_a_third_rolls() {
    // The expected length of a game of craps is 557/165 rolls.
    let count = 200_000usize;
    let tally = run_games(7, 0, count);
    let mean = tally.rolls as f64 / count as f64;
    assert!((mean - 557.0 / 165.0).abs() < 0.05, "mean rolls {}", mean);
}

#[test]
fn the_same_run_gives_the_same_totals() {
    let first = run_games(DEFAULT_SEED, 0, 20_000);
    let second = run_games(DEFAULT_SEED, 0, 20_000);
    assert_eq!(first, second);
}

#[test]
fn another_seed_gives_another_run() {
    let first = run_games(1, 0, 20_000);
    let second = run_games(2, 0, 20_000);
    assert_ne!(first, second);
}

#[test]
fn the_games_of_a_run_differ() {
    let mut lengths = std::collections::BTreeSet::new();
    let mut wins = 0;
    for index in 0..1_000usize {
        let outcome = simulate_game(game_seed(DEFAULT_SEED, index));
        lengths.insert(outcome.rolls);
        if outcome.win {
            wins += 1;
        }
    }
    assert!(lengths.len() >= 5);
    assert!(wins > 400 && wins < 600);
}

#[test]
fn ten_games_in_three_batches() {
    assert_eq!(
        split_games(10, 3),
        vec![
            Batch { first: 0, count: 4 },
            Batch { first: 4, count: 3 },
            Batch { first: 7, count: 3 },
        ]
    );
}

#[test]
fn an_even_split() {
    assert_eq!(
        split_games(12, 4),
        vec![
            Batch { first: 0, count: 3 },
            Batch { first: 3, count: 3 },
            Batch { first: 6, count: 3 },
            Batch { first: 9, count: 3 },
        ]
    );
}

#[test]
fn more_batches_than_games() {
    assert_eq!(
        split_games(2, 4),
        vec![
            Batch { first: 0, count: 1 },
            Batch { first: 1, count: 1 },
            Batch { first: 2, count: 0 },
            Batch { first: 2, count: 0 },
        ]
    );
}

#[test]
fn no_games_to_split() {
    assert_eq!(split_games(0, 2), vec![Batch { first: 0, count: 0 }, Batch { first: 0, count: 0 }]);
}

#[test]
fn one_batch_holds_every_game() {
    assert_eq!(split_games(1_000, 1), vec![Batch { first: 0, count: 1_000 }]);
}

#[test]
fn batches_cover_the_run() {
    for num_games in [0usize, 1, 2, 7, 100, 1_001] {
        for num_batches in 1..=9usize {
            let batches = split_games(num_games, num_batches);
            assert_eq!(batches.len(), num_batches);
            let mut next = 0;
            for batch in &batches {
                assert_eq!(batch.first, next);
                next += batch.count;
            }
            assert_eq!(next, num_games);
            let largest = batches.iter().map(|b| b.count).max().unwrap();
            let smallest = batches.iter().map(|b| b.count).min().unwrap();
            assert!(largest - smallest <= 1);
        }
    }
}

#[test]
fn batches_add_up_to_the_whole_run() {
    let num_games = 30_000usize;
    let whole = run_games(DEFAULT_SEED, 0, num_games);
    for num_batches in [1usize, 2, 3, 7, 16, 1_000] {
        let mut total = Tally::new();
        for batch in split_games(num_games, num_batches) {
            total = total.combine(run_games(DEFAULT_SEED, batch.first, batch.count));
        }
        assert_eq!(total, whole);
    }
}

#[test]
fn batches_add_up_in_any_order() {
    let num_games = 10_000usize;
    let whole = run_games(DEFAULT_SEED, 0, num_games);
    let mut tallies: Vec<Tally> = split_games(num_games, 8)
        .iter()
        .map(|batch| run_games(DEFAULT_SEED, batch.first, batch.count))
        .collect();
    tallies.reverse();
    tallies.swap(1, 5);
    let mut total = Tally::new();
    for tally in tallies {
        total = tally.combine(total);
    }
    assert_eq!(total, whole);
}
