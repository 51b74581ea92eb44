use craps_sim::game::GameOutcome;
use craps_sim::tally::Tally;

fn tally_all(outcomes: &[GameOutcome]) -> Tally {
    let mut tally = Tally::new();
    for outcome in outcomes {
        tally = tally.record(*outcome);
    }
    tally
}

fn sample() -> Vec<GameOutcome> {
    vec![
        GameOutcome { rolls: 1, win: true },
        GameOutcome { rolls: 4, win: true },
        GameOutcome { rolls: 2, win: false },
        GameOutcome { rolls: 1, win: false },
        GameOutcome { rolls: 7, win: true },
        GameOutcome { rolls: 3, win: false },
        GameOutcome { rolls: 1, win: true },
    ]
}

#[test]
fn a_new_tally_is_empty() {
    assert_eq!(Tally::new(), Tally { rolls: 0, wins: 0, losses: 0 });
}

#[test]
fn a_win_is_recorded() {
    let tally = Tally { rolls: 10, wins: 2, losses: 3 };
    assert_eq!(
        tally.record(GameOutcome { rolls: 4, win: true }),
        Tally { rolls: 14, wins: 3, losses: 3 }
    );
}

#[test]
fn a_loss_is_recorded() {
    let tally = Tally { rolls: 10, wins: 2, losses: 3 };
    assert_eq!(
        tally.record(GameOutcome { rolls: 2, win: false }),
        Tally { rolls: 12, wins: 2, losses: 4 }
    );
}

#[test]
fn tallies_add_up_field_by_field() {
    let a = Tally { rolls: 10, wins: 2, losses: 3 };
    let b = Tally { rolls: 7, wins: 1, losses: 1 };
    assert_eq!(a.combine(b), Tally { rolls: 17, wins: 3, losses: 4 });
}

#[test]
fn the_sample_adds_up() {
    assert_eq!(tally_all(&sample()), Tally { rolls: 19, wins: 4, losses: 3 });
}

#[test]
fn combining_is_commutative_and_associative() {
    let a = Tally { rolls: 10, wins: 2, losses: 3 };
    let b = Tally { rolls: 7, wins: 1, losses: 1 };
    let c = Tally { rolls: 30, wins: 4, losses: 6 };
    assert_eq!(a.combine(b), b.combine(a));
    assert_eq!(a.combine(b).combine(c), a.combine(b.combine(c)));
    assert_eq!(a.combine(Tally::new()), a);
    assert_eq!(Tally::new().combine(a), a);
}

#[test]
fn any_split_in_two_gives_the_same_totals() {
    let outcomes = sample();
    let whole = tally_all(&outcomes);
    for cut in 0..=outcomes.len() {
        let front = tally_all(&outcomes[..cut]);
        let back = tally_all(&outcomes[cut..]);
        assert_eq!(front.combine(back), whole);
        assert_eq!(back.combine(front), whole);
    }
}

#[test]
fn any_split_in_three_gives_the_same_totals() {
    let outcomes = sample();
    let whole = tally_all(&outcomes);
    for a in 0..=outcomes.len() {
        for b in a..=outcomes.len() {
            let parts = [
                tally_all(&outcomes[..a]),
                tally_all(&outcomes[a..b]),
                tally_all(&outcomes[b..]),
            ];
            assert_eq!(parts[0].combine(parts[1]).combine(parts[2]), whole);
            assert_eq!(parts[2].combine(parts[0]).combine(parts[1]), whole);
        }
    }
}

#[test]
fn the_order_of_the_games_does_not_matter() {
    let mut outcomes = sample();
    let whole = tally_all(&outcomes);
    outcomes.reverse();
    assert_eq!(tally_all(&outcomes), whole);
    outcomes.rotate_left(3);
    assert_eq!(tally_all(&outcomes), whole);
}

#[test]
fn every_game_is_a_win_or_a_loss() {
    let outcomes = sample();
    let tally = tally_all(&outcomes);
    assert_eq!(tally.wins + tally.losses, outcomes.len());
    assert!(tally.rolls >= outcomes.len());
}
