//! Running totals over the outcomes of many games.

use crate::game::GameOutcome;
use crate::game::MAX_ROLLS;
use vstd::prelude::*;
use vstd::seq_lib::to_multiset_contains;
use vstd::seq_lib::to_multiset_len;
use vstd::seq_lib::to_multiset_remove;

verus! {

/// The totals of a set of games, as unbounded numbers.
pub struct TallyView {
    /// Rolls made in all the games together.
    pub rolls: nat,
    /// Games won.
    pub wins: nat,
    /// Games lost.
    pub losses: nat,
}

impl TallyView {
    /// The totals of no games.
    pub open spec fn zero() -> TallyView {
        TallyView { rolls: 0, wins: 0, losses: 0 }
    }

    /// The number of games counted.
    pub open spec fn games(self) -> nat {
        self.wins + self.losses
    }

    /// The totals with one more game counted.
    pub open spec fn record(self, outcome: GameOutcome) -> TallyView {
        TallyView {
            rolls: self.rolls + outcome.rolls as nat,
            wins: if outcome.win {
                self.wins + 1
            } else {
                self.wins
            },
            losses: if outcome.win {
                self.losses
            } else {
                self.losses + 1
            },
        }
    }

    /// The totals of two sets of games together: the sum, field by field.
    pub open spec fn combine(self, other: TallyView) -> TallyView {
        TallyView {
            rolls: self.rolls + other.rolls,
            wins: self.wins + other.wins,
            losses: self.losses + other.losses,
        }
    }

    /// Every total fits the machine word.
    pub open spec fn fits(self) -> bool {
        &&& self.rolls <= usize::MAX
        &&& self.wins <= usize::MAX
        &&& self.losses <= usize::MAX
    }
}

/// The totals of a list of outcomes, counted one after the other.
pub open spec fn tally_of(outcomes: Seq<GameOutcome>) -> TallyView
    decreases outcomes.len(),
{
    if outcomes.len() == 0 {
        TallyView::zero()
    } else {
        tally_of(outcomes.drop_last()).record(outcomes.last())
    }
}

/// Every outcome in the list is plausible.
pub open spec fn all_plausible(outcomes: Seq<GameOutcome>) -> bool {
    forall|i: int| 0 <= i < outcomes.len() ==> (#[trigger] outcomes[i]).plausible()
}

/// The batches' outcomes in one list, batch after batch.
pub open spec fn joined(batches: Seq<Seq<GameOutcome>>) -> Seq<GameOutcome>
    decreases batches.len(),
{
    if batches.len() == 0 {
        Seq::empty()
    } else {
        joined(batches.drop_last()) + batches.last()
    }
}

/// The totals of each batch, combined batch after batch.
pub open spec fn combined(batches: Seq<Seq<GameOutcome>>) -> TallyView
    decreases batches.len(),
{
    if batches.len() == 0 {
        TallyView::zero()
    } else {
        combined(batches.drop_last()).combine(tally_of(batches.last()))
    }
}

/// Combining is commutative.
pub proof fn lemma_combine_commutative(a: TallyView, b: TallyView)
    ensures
        a.combine(b) == b.combine(a),
{
}

/// Combining is associative.
pub proof fn lemma_combine_associative(a: TallyView, b: TallyView, c: TallyView)
    ensures
        a.combine(b).combine(c) == a.combine(b.combine(c)),
{
}

/// The totals of no games are neutral in a combination.
pub proof fn lemma_combine_zero(a: TallyView)
    ensures
        a.combine(TallyView::zero()) == a,
        TallyView::zero().combine(a) == a,
{
}

/// Splitting a list of games in two and combining the two totals gives the
/// totals of the whole list.
pub proof fn lemma_tally_concat(front: Seq<GameOutcome>, back: Seq<GameOutcome>)
    ensures
        tally_of(front + back) == tally_of(front).combine(tally_of(back)),
    decreases back.len(),
{
    if back.len() == 0 {
        assert(front + back =~= front);
    } else {
        lemma_tally_concat(front, back.drop_last());
        assert((front + back).drop_last() =~= front + back.drop_last());
    }
}

/// Cutting a list of games into any number of batches, one after the other,
/// and combining the batches' totals gives the totals of the whole list.
pub proof fn lemma_tally_batches(batches: Seq<Seq<GameOutcome>>)
    ensures
        combined(batches) == tally_of(joined(batches)),
    decreases batches.len(),
{
    if batches.len() > 0 {
        lemma_tally_batches(batches.drop_last());
        lemma_tally_concat(joined(batches.drop_last()), batches.last());
    }
}

/// The totals of a list count the game at any place in it once.
proof fn lemma_tally_remove(outcomes: Seq<GameOutcome>, i: int)
    requires
        0 <= i < outcomes.len(),
    ensures
        tally_of(outcomes) == tally_of(outcomes.remove(i)).record(outcomes[i]),
{
    let front = outcomes.take(i);
    let one = seq![outcomes[i]];
    let back = outcomes.skip(i + 1);
    assert(outcomes =~= (front + one) + back);
    assert(outcomes.remove(i) =~= front + back);
    assert(tally_of(one) == TallyView::zero().record(outcomes[i])) by {
        assert(one.drop_last() =~= Seq::<GameOutcome>::empty());
        assert(tally_of(one.drop_last()) == TallyView::zero());
    }
    lemma_tally_concat(front + one, back);
    lemma_tally_concat(front, one);
    lemma_tally_concat(front, back);
}

/// The totals do not depend on the order of the games: two lists that hold
/// the same outcomes, each as often as the other, have the same totals.
pub proof fn lemma_tally_reordered(a: Seq<GameOutcome>, b: Seq<GameOutcome>)
    requires
        a.to_multiset() == b.to_multiset(),
    ensures
        tally_of(a) == tally_of(b),
    decreases a.len(),
{
    to_multiset_len(a);
    to_multiset_len(b);
    if a.len() > 0 {
        let last = a.len() - 1;
        let x = a[last];
        assert(a.contains(x));
        to_multiset_contains(a, x);
        to_multiset_contains(b, x);
        let i = choose|i: int| 0 <= i < b.len() && b[i] == x;
        to_multiset_remove(a, last);
        to_multiset_remove(b, i);
        assert(a.remove(last) =~= a.drop_last());
        lemma_tally_reordered(a.drop_last(), b.remove(i));
        lemma_tally_remove(b, i);
    }
}

/// However a set of games is split into batches, and in whatever order the
/// batches are combined, the combined totals are those of the whole set
/// played as one batch.
pub proof fn lemma_partition_independent(
    whole: Seq<GameOutcome>,
    batches: Seq<Seq<GameOutcome>>,
)
    requires
        joined(batches).to_multiset() == whole.to_multiset(),
    ensures
        combined(batches) == tally_of(whole),
{
    lemma_tally_batches(batches);
    lemma_tally_reordered(joined(batches), whole);
}

/// The totals of a list of plausible outcomes count every game once, as a
/// win or as a loss, and between one roll and `MAX_ROLLS` rolls for each.
pub proof fn lemma_tally_bounds(outcomes: Seq<GameOutcome>)
    requires
        all_plausible(outcomes),
    ensures
        tally_of(outcomes).wins + tally_of(outcomes).losses == outcomes.len(),
        outcomes.len() <= tally_of(outcomes).rolls <= outcomes.len() * MAX_ROLLS,
    decreases outcomes.len(),
{
    if outcomes.len() > 0 {
        lemma_tally_bounds(outcomes.drop_last());
        assert(outcomes.last().plausible());
        assert((outcomes.len() - 1) * MAX_ROLLS + MAX_ROLLS == outcomes.len() * MAX_ROLLS)
            by (nonlinear_arith);
    }
}

/// The totals of a set of games, in machine words.
#[derive(Clone, Copy, Debug, PartialEq, Eq, Structural)]
pub struct Tally {
    /// Rolls made in all the games together.
    pub rolls: usize,
    /// Games won.
    pub wins: usize,
    /// Games lost.
    pub losses: usize,
}

impl View for Tally {
    type V = TallyView;

    open spec fn view(&self) -> TallyView {
        TallyView { rolls: self.rolls as nat, wins: self.wins as nat, losses: self.losses as nat }
    }
}

impl Tally {
    /// The totals of no games.
    pub fn new() -> (tally: Tally)
        ensures
            tally@ == TallyView::zero(),
    {
        Tally { rolls: 0, wins: 0, losses: 0 }
    }

    /// Counts one more game.
    pub fn record(self, outcome: GameOutcome) -> (tally: Tally)
        requires
            self@.record(outcome).fits(),
        ensures
            tally@ == self@.record(outcome),
    {
        if outcome.win {
            Tally { rolls: self.rolls + outcome.rolls, wins: self.wins + 1, losses: self.losses }
        } else {
            Tally { rolls: self.rolls + outcome.rolls, wins: self.wins, losses: self.losses + 1 }
        }
    }

    /// Adds the totals of another set of games.
    pub fn combine(self, other: Tally) -> (tally: Tally)
        requires
            self@.combine(other@).fits(),
        ensures
            tally@ == self@.combine(other@),
    {
        Tally {
            rolls: self.rolls + other.rolls,
            wins: self.wins + other.wins,
            losses: self.losses + other.losses,
        }
    }
}

} // verus!
