//! Runs of games: every game is played with fresh dice whose generator is
//! seeded from the run's seed and the game's index, so that the games of a
//! run do not depend on how the run is cut into batches.

use crate::dice::total;
use crate::dice::unrolled;
use crate::dice::Dice;
use crate::game::play_game;
use crate::game::GameOutcome;
use crate::game::MAX_ROLLS;
use crate::tally::all_plausible;
use crate::tally::combined;
use crate::tally::joined;
use crate::tally::lemma_tally_batches;
use crate::tally::lemma_tally_bounds;
use crate::tally::tally_of;
use crate::tally::Tally;
use vstd::arithmetic::div_mod::lemma_fundamental_div_mod;
use vstd::arithmetic::div_mod::lemma_mod_bound;
use vstd::prelude::*;

verus! {

/// A seed for runs that are to be repeatable.
pub const DEFAULT_SEED: u64 = 98050120;

/// The seed of the game with the given index in a run: the run's seed plus
/// the index, wrapping round at the end of the 64-bit range.
pub open spec fn seed_of_game(root_seed: u64, index: usize) -> u64 {
    if root_seed + index > u64::MAX {
        (root_seed + index - 0x1_0000_0000_0000_0000) as u64
    } else {
        (root_seed + index) as u64
    }
}

/// Two games of one run never share a seed.
pub proof fn lemma_game_seeds_differ(root_seed: u64, i: usize, j: usize)
    requires
        i != j,
    ensures
        seed_of_game(root_seed, i) != seed_of_game(root_seed, j),
{
}

/// The seed of the game with the given index in a run.
pub fn game_seed(root_seed: u64, index: usize) -> (seed: u64)
    ensures
        seed == seed_of_game(root_seed, index),
{
    root_seed.wrapping_add(index as u64)
}

/// Two unrolled six-sided dice with a generator seeded with `seed`.
pub fn standard_dice(seed: u64) -> (dice: Dice)
    ensures
        dice.wf(),
        dice@.faces == seq![6usize, 6usize],
        dice@.pips == unrolled(2),
        dice@.history == Seq::<Seq<usize>>::empty(),
{
    let mut faces: Vec<usize> = Vec::new();
    faces.push(6);
    faces.push(6);
    proof {
        assert(faces@ =~= seq![6usize, 6usize]);
        assert(total(faces@) == 12) by {
            reveal_with_fuel(total, 3);
        }
    }
    Dice::new(faces, seed)
}

/// Plays one game with two fresh six-sided dice seeded with `seed`.
///
/// Which game comes depends on the generator, so the contract says what holds
/// of every game: it ends, after at least one roll and at most `MAX_ROLLS`.
pub fn simulate_game(seed: u64) -> (outcome: GameOutcome)
    ensures
        outcome.plausible(),
{
    let mut dice = standard_dice(seed);
    play_game(&mut dice)
}

/// Plays the `count` games of a run whose indices start at `first`, and
/// counts them.
///
/// The totals are those of `count` plausible outcomes: every game is counted
/// once, as a win or as a loss, and with between one roll and `MAX_ROLLS`.
pub fn run_games(root_seed: u64, first: usize, count: usize) -> (tally: Tally)
    requires
        first + count <= usize::MAX,
        count * MAX_ROLLS <= usize::MAX,
    ensures
        tally@.wins + tally@.losses == count,
        count <= tally@.rolls <= count * MAX_ROLLS,
        exists|outcomes: Seq<GameOutcome>|
            outcomes.len() == count && all_plausible(outcomes) && tally@ == #[trigger] tally_of(
                outcomes,
            ),
{
    let mut tally = Tally::new();
    let ghost mut played: Seq<GameOutcome> = Seq::empty();
    let mut i: usize = 0;
    while i < count
        invariant
            i <= count,
            first + count <= usize::MAX,
            count * MAX_ROLLS <= usize::MAX,
            played.len() == i,
            all_plausible(played),
            tally@ == tally_of(played),
        decreases count - i,
    {
        let outcome = simulate_game(game_seed(root_seed, first + i));
        proof {
            let longer = played.push(outcome);
            assert(longer.drop_last() =~= played);
            lemma_tally_bounds(longer);
            played = longer;
        }
        tally = tally.record(outcome);
        i += 1;
    }
    proof {
        lemma_tally_bounds(played);
    }
    tally
}

/// A batch of a run: the `count` games whose indices start at `first`.
#[derive(Clone, Copy, Debug, PartialEq, Eq, Structural)]
pub struct Batch {
    /// The index of the batch's first game.
    pub first: usize,
    /// The number of games in the batch.
    pub count: usize,
}

/// The size of batch `k` when `num_games` games are dealt out to
/// `num_batches` batches as evenly as can be: the first batches get one game
/// more where the division leaves a remainder.
pub open spec fn batch_count(num_games: nat, num_batches: nat, k: nat) -> nat {
    num_games / num_batches + if k < num_games % num_batches {
        1nat
    } else {
        0nat
    }
}

/// The index of the first game of batch `k` in such a dealing.
pub open spec fn batch_first(num_games: nat, num_batches: nat, k: nat) -> nat {
    k * (num_games / num_batches) + if k < num_games % num_batches {
        k
    } else {
        num_games % num_batches
    }
}

/// The batches follow one another, without gap or overlap, from game zero to
/// game `num_games`.
pub open spec fn covers(batches: Seq<Batch>, num_games: nat) -> bool {
    &&& batches.len() >= 1
    &&& batches[0].first == 0
    &&& forall|k: int|
        0 <= k < batches.len() - 1 ==> (#[trigger] batches[k]).first + batches[k].count
            == batches[k + 1].first
    &&& batches.last().first + batches.last().count == num_games
}

/// Each batch of an even dealing starts where the one before it ends; the
/// first starts at zero and the last ends at `num_games`.
pub proof fn lemma_batch_step(num_games: nat, num_batches: nat, k: nat)
    requires
        num_batches >= 1,
        k < num_batches,
    ensures
        batch_first(num_games, num_batches, 0) == 0,
        batch_first(num_games, num_batches, k + 1) == batch_first(num_games, num_batches, k)
            + batch_count(num_games, num_batches, k),
        batch_first(num_games, num_batches, k + 1) <= num_games,
        batch_first(num_games, num_batches, num_batches) == num_games,
{
    let share = num_games / num_batches;
    let extra = num_games % num_batches;
    lemma_fundamental_div_mod(num_games as int, num_batches as int);
    lemma_mod_bound(num_games as int, num_batches as int);
    assert((k + 1) * share == k * share + share) by (nonlinear_arith);
    assert((k + 1) * share <= num_batches * share) by (nonlinear_arith)
        requires
            k + 1 <= num_batches,
            0 <= share,
    ;
}

/// Deals `num_games` games out to `num_batches` batches, as evenly as can be.
pub fn split_games(num_games: usize, num_batches: usize) -> (batches: Vec<Batch>)
    requires
        num_batches >= 1,
    ensures
        batches@.len() == num_batches,
        forall|k: int|
            0 <= k < num_batches ==> (#[trigger] batches@[k]).first == batch_first(
                num_games as nat,
                num_batches as nat,
                k as nat,
            ) && batches@[k].count == batch_count(num_games as nat, num_batches as nat, k as nat),
        covers(batches@, num_games as nat),
{
    let share = num_games / num_batches;
    let extra = num_games % num_batches;
    let mut batches: Vec<Batch> = Vec::new();
    let mut first: usize = 0;
    let mut k: usize = 0;
    while k < num_batches
        invariant
            k <= num_batches,
            num_batches >= 1,
            share == num_games / num_batches,
            extra == num_games % num_batches,
            batches@.len() == k,
            first == batch_first(num_games as nat, num_batches as nat, k as nat),
            forall|j: int|
                0 <= j < k ==> (#[trigger] batches@[j]).first == batch_first(
                    num_games as nat,
                    num_batches as nat,
                    j as nat,
                ) && batches@[j].count == batch_count(
                    num_games as nat,
                    num_batches as nat,
                    j as nat,
                ),
        decreases num_batches - k,
    {
        proof {
            lemma_batch_step(num_games as nat, num_batches as nat, k as nat);
        }
        let count = if k < extra {
            share + 1
        } else {
            share
        };
        batches.push(Batch { first, count });
        first = first + count;
        k += 1;
    }
    proof {
        lemma_batch_step(num_games as nat, num_batches as nat, 0);
        lemma_batch_step(num_games as nat, num_batches as nat, (num_batches - 1) as nat);
        assert forall|j: int| 0 <= j < batches@.len() - 1 implies (#[trigger] batches@[j]).first
            + batches@[j].count == batches@[j + 1].first by {
            lemma_batch_step(num_games as nat, num_batches as nat, j as nat);
        }
    }
    batches
}

/// The games of the first `n` batches, where `played[k]` holds the outcomes
/// of the games of `batches[k]`, are as many as the batches call for, and
/// plausible.
proof fn lemma_joined_prefix(batches: Seq<Batch>, played: Seq<Seq<GameOutcome>>, n: int)
    requires
        batches.len() >= 1,
        batches[0].first == 0,
        forall|k: int|
            0 <= k < batches.len() - 1 ==> (#[trigger] batches[k]).first + batches[k].count
                == batches[k + 1].first,
        played.len() == batches.len(),
        forall|k: int|
            0 <= k < played.len() ==> (#[trigger] played[k]).len() == batches[k].count
                && all_plausible(played[k]),
        1 <= n <= batches.len(),
    ensures
        joined(played.take(n)).len() == batches[n - 1].first + batches[n - 1].count,
        all_plausible(joined(played.take(n))),
    decreases n,
{
    let front = played.take(n);
    assert(front.drop_last() =~= played.take(n - 1));
    assert(front.last() == played[n - 1]);
    if n == 1 {
        assert(joined(played.take(0)) =~= Seq::<GameOutcome>::empty());
    } else {
        lemma_joined_prefix(batches, played, n - 1);
        assert(batches[n - 2].first + batches[n - 2].count == batches[n - 1].first);
    }
}

/// Batches that cover a run, played apart and combined, give the totals of
/// the run: every game of the run is counted once, as a win or as a loss, and
/// with between one roll and `MAX_ROLLS`.
pub proof fn lemma_batches_cover_run(
    batches: Seq<Batch>,
    played: Seq<Seq<GameOutcome>>,
    num_games: nat,
)
    requires
        covers(batches, num_games),
        played.len() == batches.len(),
        forall|k: int|
            0 <= k < played.len() ==> (#[trigger] played[k]).len() == batches[k].count
                && all_plausible(played[k]),
    ensures
        combined(played) == tally_of(joined(played)),
        joined(played).len() == num_games,
        all_plausible(joined(played)),
        combined(played).wins + combined(played).losses == num_games,
        num_games <= combined(played).rolls <= num_games * MAX_ROLLS,
{
    lemma_joined_prefix(batches, played, played.len() as int);
    assert(played.take(played.len() as int) =~= played);
    lemma_tally_batches(played);
    lemma_tally_bounds(joined(played));
}

} // verus!
