//! A set of dice, rolled by a small seeded pseudo-random generator.

use rand::rngs::SmallRng;
use rand::Rng;
use rand::SeedableRng;
use vstd::prelude::*;

verus! {

/// The generator of the `rand` crate that rolls the dice. Nothing of its
/// state is visible to the proofs.
#[verifier::external_type_specification]
#[verifier::external_body]
pub struct ExSmallRng(SmallRng);

/// Calls `SmallRng::seed_from_u64`, which builds a generator from a 64-bit
/// seed. Nothing is claimed of the generator that comes back.
#[verifier::external_body]
fn seeded_rng(seed: u64) -> SmallRng {
    SmallRng::seed_from_u64(seed)
}

/// Calls `Rng::gen_range` on the inclusive range from one to `faces`.
///
/// Trusted: the call returns for every non-empty range, and the value lies in
/// the range. Which value comes is left open, so nothing proved in this crate
/// depends on the stream of the generator.
#[verifier::external_body]
fn draw_pip(rng: &mut SmallRng, faces: usize) -> (pip: usize)
    requires
        1 <= faces,
    ensures
        1 <= pip <= faces,
{
    rng.gen_range(1..=faces)
}

/// The sum of a sequence of pip values.
pub open spec fn total(pips: Seq<usize>) -> nat
    decreases pips.len(),
{
    if pips.len() == 0 {
        0
    } else {
        total(pips.drop_last()) + pips.last() as nat
    }
}

/// `n` dice that have not been rolled: every one shows zero.
pub open spec fn unrolled(n: nat) -> Seq<usize> {
    Seq::new(n, |i: int| 0usize)
}

/// Every die has at least one face, and the largest sum that the dice can
/// show fits the machine word.
pub open spec fn valid_faces(faces: Seq<usize>) -> bool {
    &&& forall|i: int| 0 <= i < faces.len() ==> 1 <= #[trigger] faces[i]
    &&& total(faces) <= usize::MAX
}

/// `pips` is a possible roll of dice with the given faces: one value for each
/// die, between one and the number of its faces.
pub open spec fn is_roll_of(pips: Seq<usize>, faces: Seq<usize>) -> bool {
    &&& pips.len() == faces.len()
    &&& forall|i: int| 0 <= i < faces.len() ==> 1 <= #[trigger] pips[i] <= faces[i]
}

/// Die by die, `pips` shows no more than `faces` allows.
pub open spec fn within_faces(pips: Seq<usize>, faces: Seq<usize>) -> bool {
    &&& pips.len() == faces.len()
    &&& forall|i: int| 0 <= i < faces.len() ==> #[trigger] pips[i] <= faces[i]
}

/// The sum of a prefix is no more than the sum of the whole.
pub proof fn lemma_total_prefix(pips: Seq<usize>, n: int)
    requires
        0 <= n <= pips.len(),
    ensures
        total(pips.take(n)) <= total(pips),
    decreases pips.len() - n,
{
    if n == pips.len() {
        assert(pips.take(n) =~= pips);
    } else {
        lemma_total_prefix(pips, n + 1);
        assert(pips.take(n + 1).drop_last() =~= pips.take(n));
    }
}

/// Dice that show no more than their faces allow sum to no more than the
/// faces do.
pub proof fn lemma_total_within(pips: Seq<usize>, faces: Seq<usize>)
    requires
        within_faces(pips, faces),
    ensures
        total(pips) <= total(faces),
    decreases pips.len(),
{
    if pips.len() > 0 {
        lemma_total_within(pips.drop_last(), faces.drop_last());
    }
}

/// What the proofs see of a set of dice.
pub struct DiceView {
    /// The number of faces of each die.
    pub faces: Seq<usize>,
    /// What each die shows now.
    pub pips: Seq<usize>,
    /// Every roll made so far, oldest first.
    pub history: Seq<Seq<usize>>,
}

impl DiceView {
    /// The dice are sound: every past roll was a roll of these dice, and the
    /// dice show the latest one, or zeros before the first.
    pub open spec fn wf(self) -> bool {
        &&& valid_faces(self.faces)
        &&& forall|k: int|
            0 <= k < self.history.len() ==> is_roll_of(#[trigger] self.history[k], self.faces)
        &&& self.pips == if self.history.len() == 0 {
            unrolled(self.faces.len())
        } else {
            self.history.last()
        }
    }
}

/// A set of dice with a generator of their own.
pub struct Dice {
    max_pips: Vec<usize>,
    pips: Vec<usize>,
    roll_count: usize,
    rng: SmallRng,
    history: Ghost<Seq<Seq<usize>>>,
}

impl View for Dice {
    type V = DiceView;

    closed spec fn view(&self) -> DiceView {
        DiceView { faces: self.max_pips@, pips: self.pips@, history: self.history@ }
    }
}

impl Dice {
    /// The number of rolls that the dice have counted.
    pub closed spec fn counted(&self) -> nat {
        self.roll_count as nat
    }

    /// The dice are sound and have counted every roll.
    pub open spec fn wf(&self) -> bool {
        &&& self@.wf()
        &&& self.counted() == self@.history.len()
    }

    /// Makes unrolled dice with the given numbers of faces, and a generator
    /// seeded with `seed`.
    pub fn new(max_pips: Vec<usize>, seed: u64) -> (dice: Dice)
        requires
            valid_faces(max_pips@),
        ensures
            dice.wf(),
            dice@.faces == max_pips@,
            dice@.pips == unrolled(max_pips@.len()),
            dice@.history == Seq::<Seq<usize>>::empty(),
    {
        let num_dice = max_pips.len();
        let mut pips: Vec<usize> = Vec::new();
        while pips.len() < num_dice
            invariant
                pips@.len() <= num_dice,
                pips@ == unrolled(pips@.len()),
            decreases num_dice - pips@.len(),
        {
            pips.push(0);
        }
        Dice { max_pips, pips, roll_count: 0, rng: seeded_rng(seed), history: Ghost(Seq::empty()) }
    }

    /// Rolls every die anew.
    pub fn roll(&mut self)
        requires
            old(self).wf(),
            old(self)@.history.len() < usize::MAX,
        ensures
            final(self).wf(),
            final(self)@.faces == old(self)@.faces,
            is_roll_of(final(self)@.pips, final(self)@.faces),
            final(self)@.history == old(self)@.history.push(final(self)@.pips),
    {
        let num_dice = self.max_pips.len();
        let mut i: usize = 0;
        while i < num_dice
            invariant
                i <= num_dice,
                num_dice == self.max_pips@.len(),
                self.pips@.len() == num_dice,
                self.max_pips@ == old(self).max_pips@,
                self.roll_count == old(self).roll_count,
                self.history@ == old(self).history@,
                valid_faces(self.max_pips@),
                forall|j: int| 0 <= j < i ==> 1 <= #[trigger] self.pips@[j] <= self.max_pips@[j],
            decreases num_dice - i,
        {
            let faces = self.max_pips[i];
            let pip = draw_pip(&mut self.rng, faces);
            self.pips[i] = pip;
            i += 1;
        }
        self.roll_count = self.roll_count + 1;
        self.history = Ghost(self.history@.push(self.pips@));
    }

    /// The sum of what the dice show: zero before the first roll.
    pub fn pip_sum(&self) -> (sum: usize)
        requires
            self.wf(),
        ensures
            sum == total(self@.pips),
    {
        proof {
            if self@.history.len() > 0 {
                assert(is_roll_of(self@.history.last(), self@.faces));
            }
            assert(within_faces(self@.pips, self@.faces));
        }
        let mut sum: usize = 0;
        let mut i: usize = 0;
        while i < self.pips.len()
            invariant
                i <= self.pips@.len(),
                within_faces(self.pips@, self.max_pips@),
                total(self.max_pips@) <= usize::MAX,
                sum == total(self.pips@.take(i as int)),
            decreases self.pips@.len() - i,
        {
            proof {
                assert(self.pips@.take(i + 1).drop_last() =~= self.pips@.take(i as int));
                lemma_total_prefix(self.pips@, i + 1);
                lemma_total_within(self.pips@, self.max_pips@);
            }
            sum = sum + self.pips[i];
            i += 1;
        }
        proof {
            assert(self.pips@.take(i as int) =~= self.pips@);
        }
        sum
    }

    /// The number of rolls made so far.
    pub fn rolls(&self) -> (count: usize)
        requires
            self.wf(),
        ensures
            count == self@.history.len(),
    {
        self.roll_count
    }
}

} // verus!
