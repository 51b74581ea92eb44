//! The rules of one game of craps, as a state machine over pip sums.

use crate::dice::total;
use crate::dice::Dice;
use vstd::prelude::*;

verus! {

/// The most rolls that one game may take. A game that is still undecided
/// after this many rolls is called off and counts as lost.
pub const MAX_ROLLS: usize = 1000;

/// Where a game stands.
///
/// A game starts at `ComeOut`, may pass through `Point`, and ends at `Win` or
/// `Lose`; both ends are absorbing.
#[derive(Clone, Copy, Debug, PartialEq, Eq, Structural)]
pub enum GameState {
    /// No roll has been made yet.
    ComeOut,
    /// The come-out roll set this point; the shooter rolls until it or a
    /// seven shows.
    Point(usize),
    /// The shooter has won.
    Win,
    /// The shooter has lost.
    Lose,
}

impl GameState {
    /// Whether the game is over.
    pub open spec fn terminal(self) -> bool {
        self is Win || self is Lose
    }

    /// The state that follows `self` when the dice show `pip_sum`.
    pub open spec fn after(self, pip_sum: usize) -> GameState {
        match self {
            GameState::ComeOut => if pip_sum == 7 || pip_sum == 11 {
                GameState::Win
            } else if pip_sum == 2 || pip_sum == 3 || pip_sum == 12 {
                GameState::Lose
            } else {
                GameState::Point(pip_sum)
            },
            GameState::Point(point) => if pip_sum == point {
                GameState::Win
            } else if pip_sum == 7 {
                GameState::Lose
            } else {
                GameState::Point(point)
            },
            GameState::Win => GameState::Win,
            GameState::Lose => GameState::Lose,
        }
    }

    /// Advances the game by one roll of the dice.
    pub fn step(self, pip_sum: usize) -> (next: GameState)
        ensures
            next == self.after(pip_sum),
    {
        match self {
            GameState::ComeOut => {
                if pip_sum == 7 || pip_sum == 11 {
                    GameState::Win
                } else if pip_sum == 2 || pip_sum == 3 || pip_sum == 12 {
                    GameState::Lose
                } else {
                    GameState::Point(pip_sum)
                }
            },
            GameState::Point(point) => {
                if pip_sum == point {
                    GameState::Win
                } else if pip_sum == 7 {
                    GameState::Lose
                } else {
                    GameState::Point(point)
                }
            },
            GameState::Win => GameState::Win,
            GameState::Lose => GameState::Lose,
        }
    }

    /// Whether the game is over.
    pub fn is_terminal(&self) -> (over: bool)
        ensures
            over == self.terminal(),
    {
        match self {
            GameState::Win => true,
            GameState::Lose => true,
            _ => false,
        }
    }
}

/// How one game ended.
#[derive(Clone, Copy, Debug, PartialEq, Eq, Structural)]
pub struct GameOutcome {
    /// The number of rolls that the game took.
    pub rolls: usize,
    /// Whether the shooter won.
    pub win: bool,
}

impl GameOutcome {
    /// The game took at least one roll and no more than the limit.
    pub open spec fn plausible(self) -> bool {
        1 <= self.rolls <= MAX_ROLLS
    }
}

/// The state of a game after the dice have shown `pip_sums`, one after the
/// other.
pub open spec fn state_after(pip_sums: Seq<usize>) -> GameState
    decreases pip_sums.len(),
{
    if pip_sums.len() == 0 {
        GameState::ComeOut
    } else {
        state_after(pip_sums.drop_last()).after(pip_sums.last())
    }
}

/// `pip_sums` is the record of one whole game: it was undecided before the
/// last roll, and the last roll decided it or reached the limit.
pub open spec fn is_game(pip_sums: Seq<usize>) -> bool {
    &&& 1 <= pip_sums.len() <= MAX_ROLLS
    &&& !state_after(pip_sums.drop_last()).terminal()
    &&& (state_after(pip_sums).terminal() || pip_sums.len() == MAX_ROLLS)
}

/// The outcome of the game whose record is `pip_sums`: a win if the last roll
/// won it, a loss if the last roll lost it or left it undecided.
pub open spec fn outcome_of(pip_sums: Seq<usize>) -> GameOutcome {
    GameOutcome { rolls: pip_sums.len() as usize, win: state_after(pip_sums) is Win }
}

/// The pip sum of each roll in a history of rolls.
pub open spec fn sums_of(rolls: Seq<Seq<usize>>) -> Seq<usize> {
    Seq::new(rolls.len(), |i: int| total(rolls[i]) as usize)
}

/// Plays the rules over a given list of pip sums, from the come-out roll on.
///
/// Returns the outcome of the game that the list starts with, and `None` if
/// the list ends before that game does. Sums after the end of the game are
/// not looked at.
pub fn settle(pip_sums: &Vec<usize>) -> (verdict: Option<GameOutcome>)
    ensures
        match verdict {
            Some(outcome) => {
                &&& outcome.rolls <= pip_sums@.len()
                &&& is_game(pip_sums@.take(outcome.rolls as int))
                &&& outcome == outcome_of(pip_sums@.take(outcome.rolls as int))
                &&& forall|n: int| 0 <= n < outcome.rolls ==> !is_game(#[trigger] pip_sums@.take(n))
            },
            None => forall|n: int|
                0 <= n <= pip_sums@.len() ==> !is_game(#[trigger] pip_sums@.take(n)),
        },
{
    let mut state = GameState::ComeOut;
    let mut i: usize = 0;
    while i < pip_sums.len() && i < MAX_ROLLS
        invariant
            i <= pip_sums@.len(),
            i < MAX_ROLLS,
            state == state_after(pip_sums@.take(i as int)),
            !state.terminal(),
            forall|n: int| 0 <= n <= i ==> !is_game(#[trigger] pip_sums@.take(n)),
        decreases pip_sums@.len() - i,
    {
        proof {
            assert(pip_sums@.take(i + 1).drop_last() =~= pip_sums@.take(i as int));
        }
        state = state.step(pip_sums[i]);
        i += 1;
        if state.is_terminal() || i == MAX_ROLLS {
            return Some(GameOutcome { rolls: i, win: state == GameState::Win });
        }
    }
    None
}

/// Plays one game with the given dice, from the come-out roll to the end.
///
/// The dice keep every roll, so the contract can say which game was played:
/// the rolls added to the history are the record of one whole game, and the
/// outcome is the one that the rules give for that record.
pub fn play_game(dice: &mut Dice) -> (outcome: GameOutcome)
    requires
        old(dice).wf(),
        old(dice)@.history.len() + MAX_ROLLS <= usize::MAX,
    ensures
        final(dice).wf(),
        final(dice)@.faces == old(dice)@.faces,
        final(dice)@.history.len() == old(dice)@.history.len() + outcome.rolls,
        final(dice)@.history.take(old(dice)@.history.len() as int) == old(dice)@.history,
        is_game(sums_of(final(dice)@.history.skip(old(dice)@.history.len() as int))),
        outcome == outcome_of(sums_of(final(dice)@.history.skip(old(dice)@.history.len() as int))),
{
    let ghost before = dice@.history;
    let ghost start = before.len() as int;
    dice.roll();
    let mut state = GameState::ComeOut.step(dice.pip_sum());
    let mut rolled: usize = 1;
    proof {
        let trace = sums_of(dice@.history.skip(start));
        assert(trace.drop_last() =~= Seq::<usize>::empty());
        assert(dice@.history.take(start) =~= before);
    }
    while !state.is_terminal() && rolled < MAX_ROLLS
        invariant
            dice.wf(),
            dice@.faces == old(dice)@.faces,
            start == before.len(),
            start + MAX_ROLLS <= usize::MAX,
            1 <= rolled <= MAX_ROLLS,
            dice@.history.len() == start + rolled,
            dice@.history.take(start) == before,
            state == state_after(sums_of(dice@.history.skip(start))),
            !state_after(sums_of(dice@.history.skip(start)).drop_last()).terminal(),
        decreases MAX_ROLLS - rolled,
    {
        let ghost earlier = dice@.history;
        dice.roll();
        state = state.step(dice.pip_sum());
        rolled += 1;
        proof {
            let trace = sums_of(dice@.history.skip(start));
            assert(trace.drop_last() =~= sums_of(earlier.skip(start)));
            assert(dice@.history.take(start) =~= earlier.take(start));
        }
    }
    GameOutcome { rolls: rolled, win: state == GameState::Win }
}

} // verus!
