use vstd::prelude::*;

verus! {

/// A roll of two dice, smaller die first.
#[derive(Clone, Copy, Debug, PartialEq, Eq, Structural)]
pub struct Roll {
    pub small: u8,
    pub big: u8,
}

impl Roll {
    /// Both dice show a face from one to six.
    pub open spec fn wf(&self) -> bool {
        1 <= self.small <= self.big <= 6
    }

    pub open spec fn is_double(&self) -> bool {
        self.small == self.big
    }

    /// Orders rolls by their smaller die, then their bigger die.
    pub open spec fn key(&self) -> int {
        6 * self.small + self.big
    }

    /// The roll of `die1` and `die2`, in either order.
    pub fn new(die1: u8, die2: u8) -> (r: Roll)
        requires
            1 <= die1 <= 6,
            1 <= die2 <= 6,
        ensures
            r.wf(),
            r.small as int == if die1 <= die2 {
                die1 as int
            } else {
                die2 as int
            },
            r.big as int == if die1 <= die2 {
                die2 as int
            } else {
                die1 as int
            },
    {
        if die1 <= die2 {
            Roll { small: die1, big: die2 }
        } else {
            Roll { small: die2, big: die1 }
        }
    }
}

/// How many of the 36 ordered outcomes of two dice give this roll.
pub open spec fn roll_weight(r: Roll) -> nat {
    if r.is_double() {
        1
    } else {
        2
    }
}

/// Sum of the weights of a table of rolls.
pub open spec fn weight_sum(s: Seq<(Roll, u64)>) -> nat
    decreases s.len(),
{
    if s.len() == 0 {
        0
    } else {
        weight_sum(s.drop_last()) + s.last().1 as nat
    }
}

/// Number of rolls whose smaller die is below `a`.
pub open spec fn rows_before(a: int) -> nat
    decreases a,
{
    if a <= 1 {
        0
    } else {
        rows_before(a - 1) + (7 - (a - 1)) as nat
    }
}

/// Total weight of the rolls whose smaller die is below `a`.
pub open spec fn weight_before(a: int) -> nat
    decreases a,
{
    if a <= 1 {
        0
    } else {
        weight_before(a - 1) + (1 + 2 * (6 - (a - 1))) as nat
    }
}

/// The rolls whose smaller die is `a`, in order of the bigger die, with their weights.
pub open spec fn roll_row(a: int) -> Seq<(Roll, u64)> {
    Seq::new(
        (7 - a) as nat,
        |j: int|
            (Roll { small: a as u8, big: (a + j) as u8 }, if j == 0 {
                1u64
            } else {
                2u64
            }),
    )
}

/// The rows of the rolls whose smaller die is below `a`.
pub open spec fn roll_rows(a: int) -> Seq<(Roll, u64)>
    decreases a,
{
    if a <= 1 {
        Seq::empty()
    } else {
        roll_rows(a - 1) + roll_row(a - 1)
    }
}

/// The table of the 21 distinct rolls with their weights.
pub open spec fn roll_table() -> Seq<(Roll, u64)> {
    roll_rows(7)
}

/// Each of the 21 distinct rolls once, with how often it comes up in 36 throws: doubles
/// once, the others twice. Ordered by smaller die, then bigger die.
pub fn all_21() -> (r: Vec<(Roll, u64)>)
    ensures
        r@ == roll_table(),
        r@.len() == 21,
        weight_sum(r@) == 36,
        forall|i: int| 0 <= i < r@.len() ==> r@[i].0.wf() && r@[i].1 == roll_weight(r@[i].0),
        forall|i: int, j: int| 0 <= i < j < r@.len() ==> r@[i].0.key() < r@[j].0.key(),
        forall|i: int, j: int|
            0 <= i < r@.len() && 0 <= j < r@.len() && i != j ==> r@[i].0 != r@[j].0,
        doubles_in(r@) == 6,
{
    let mut r: Vec<(Roll, u64)> = Vec::new();
    let mut a: u8 = 1;
    while a <= 6
        invariant
            1 <= a <= 7,
            r@ == roll_rows(a as int),
            r@.len() == rows_before(a as int),
            weight_sum(r@) == weight_before(a as int),
            forall|i: int| 0 <= i < r@.len() ==> r@[i].0.wf() && r@[i].1 == roll_weight(r@[i].0),
            forall|i: int| 0 <= i < r@.len() ==> r@[i].0.small < a,
            forall|i: int, j: int| 0 <= i < j < r@.len() ==> r@[i].0.key() < r@[j].0.key(),
        decreases 7 - a,
    {
        assert(roll_row(a as int).subrange(0, 0) =~= Seq::<(Roll, u64)>::empty());
        assert(r@ + roll_row(a as int).subrange(0, 0) =~= r@);
        let ghost start = r@.len();
        let ghost w0 = weight_sum(r@);
        let mut b: u8 = a;
        while b <= 6
            invariant
                1 <= a <= 6,
                a <= b <= 7,
                r@ == roll_rows(a as int) + roll_row(a as int).subrange(0, b - a),
                start == rows_before(a as int),
                w0 == weight_before(a as int),
                r@.len() == start + (b - a),
                weight_sum(r@) == w0 + if b == a {
                    0
                } else {
                    1 + 2 * (b - a - 1)
                },
                forall|i: int| 0 <= i < r@.len() ==> r@[i].0.wf() && r@[i].1 == roll_weight(
                    r@[i].0,
                ),
                forall|i: int|
                    0 <= i < r@.len() ==> r@[i].0.small < a || (r@[i].0.small == a && r@[i].0.big
                        < b),
                forall|i: int, j: int| 0 <= i < j < r@.len() ==> r@[i].0.key() < r@[j].0.key(),
            decreases 7 - b,
        {
            let w: u64 = if a == b {
                1
            } else {
                2
            };
            let ghost before = r@;
            r.push((Roll { small: a, big: b }, w));
            assert(r@.drop_last() =~= before);
            assert(r@ =~= roll_rows(a as int) + roll_row(a as int).subrange(0, b - a + 1));
            b = b + 1;
        }
        assert(roll_row(a as int).subrange(0, 7 - a) =~= roll_row(a as int));
        a = a + 1;
    }
    assert(rows_before(7) == 21) by {
        reveal_with_fuel(rows_before, 7);
    }
    assert(weight_before(7) == 36) by {
        reveal_with_fuel(weight_before, 7);
    }
    proof {
        lemma_keys_distinct(r@);
        lemma_weight_doubles(r@);
    }
    r
}

/// Rolls in a table with increasing keys are pairwise distinct.
proof fn lemma_keys_distinct(s: Seq<(Roll, u64)>)
    requires
        forall|i: int, j: int| 0 <= i < j < s.len() ==> s[i].0.key() < s[j].0.key(),
    ensures
        forall|i: int, j: int| 0 <= i < s.len() && 0 <= j < s.len() && i != j ==> s[i].0 != s[j].0,
{
    assert forall|i: int, j: int| 0 <= i < s.len() && 0 <= j < s.len() && i != j implies s[i].0
        != s[j].0 by {
        if i < j {
            assert(s[i].0.key() < s[j].0.key());
        } else {
            assert(s[j].0.key() < s[i].0.key());
        }
    }
}

/// Number of doubles in a table of rolls.
pub open spec fn doubles_in(s: Seq<(Roll, u64)>) -> nat
    decreases s.len(),
{
    if s.len() == 0 {
        0
    } else {
        doubles_in(s.drop_last()) + if s.last().0.is_double() {
            1nat
        } else {
            0nat
        }
    }
}

proof fn lemma_weight_doubles(s: Seq<(Roll, u64)>)
    requires
        forall|i: int| 0 <= i < s.len() ==> s[i].1 == roll_weight(s[i].0),
    ensures
        weight_sum(s) + doubles_in(s) == 2 * s.len(),
    decreases s.len(),
{
    if s.len() > 0 {
        let t = s.drop_last();
        assert forall|i: int| 0 <= i < t.len() implies t[i].1 == roll_weight(t[i].0) by {
            assert(t[i] == s[i]);
        }
        lemma_weight_doubles(t);
    }
}

/// The roll that the `x`-th of the 36 ordered outcomes of two dice gives.
pub open spec fn roll_of_outcome(x: int) -> Roll {
    let d1 = x / 6 + 1;
    let d2 = x % 6 + 1;
    if d1 <= d2 {
        Roll { small: d1 as u8, big: d2 as u8 }
    } else {
        Roll { small: d2 as u8, big: d1 as u8 }
    }
}

/// A seedable source of dice rolls.
pub struct DiceSource {
    rng: fastrand::Rng,
}

impl DiceSource {
    /// A source seeded from the environment.
    pub fn new() -> (r: DiceSource) {
        DiceSource { rng: new_rng() }
    }

    /// A source that replays the same rolls for the same seed.
    pub fn with_seed(seed: u64) -> (r: DiceSource) {
        DiceSource { rng: seeded_rng(seed) }
    }

    /// One of the 36 ordered outcomes of two dice, as a roll.
    pub fn roll(&mut self) -> (r: Roll)
        ensures
            r.wf(),
            exists|x: int| 0 <= x < 36 && r == roll_of_outcome(x),
    {
        let x = random_below(&mut self.rng, 36);
        roll_of(x)
    }

    /// The opening roll: one of the 30 ordered outcomes that are not doubles.
    pub fn first_roll(&mut self) -> (r: Roll)
        ensures
            r.wf(),
            !r.is_double(),
            exists|x: int| 0 <= x < 30 && r == first_roll_of_outcome(x),
    {
        let x = random_below(&mut self.rng, 30);
        first_roll_of(x)
    }
}

/// The roll that the `x`-th of the 30 ordered non-double outcomes gives: the second die is
/// `x % 6 + 1`, the first `x / 6 + 1`, moved up by one when that is not below the second,
/// so the two always differ.
pub open spec fn first_roll_of_outcome(x: int) -> Roll {
    let d1 = if x / 6 + 1 >= x % 6 + 1 {
        x / 6 + 2
    } else {
        x / 6 + 1
    };
    let d2 = x % 6 + 1;
    if d1 <= d2 {
        Roll { small: d1 as u8, big: d2 as u8 }
    } else {
        Roll { small: d2 as u8, big: d1 as u8 }
    }
}

/// The roll of the `x`-th of the 36 ordered outcomes of two dice.
pub fn roll_of(x: usize) -> (r: Roll)
    requires
        x < 36,
    ensures
        r == roll_of_outcome(x as int),
        r.wf(),
{
    Roll::new((x / 6 + 1) as u8, (x % 6 + 1) as u8)
}

/// The roll of the `x`-th of the 30 ordered outcomes of an opening, which is never a
/// double.
pub fn first_roll_of(x: usize) -> (r: Roll)
    requires
        x < 30,
    ensures
        r == first_roll_of_outcome(x as int),
        r.wf(),
        !r.is_double(),
{
    let mut die1: u8 = (x / 6 + 1) as u8;
    let die2: u8 = (x % 6 + 1) as u8;
    if die1 >= die2 {
        die1 = die1 + 1;
    }
    Roll::new(die1, die2)
}

#[verifier::external_type_specification]
#[verifier::external_body]
pub struct ExRng(fastrand::Rng);

/// Relies on fastrand's `Rng::new`.
#[verifier::external_body]
fn new_rng() -> (r: fastrand::Rng) {
    fastrand::Rng::new()
}

/// Relies on fastrand's `Rng::with_seed`.
#[verifier::external_body]
fn seeded_rng(seed: u64) -> (r: fastrand::Rng) {
    fastrand::Rng::with_seed(seed)
}

/// Relies on fastrand's `Rng::usize`: a number in the given range, which must not be
/// empty.
#[verifier::external_body]
fn random_below(rng: &mut fastrand::Rng, n: usize) -> (r: usize)
    requires
        n > 0,
    ensures
        r < n,
{
    rng.usize(..n)
}

} // verus!
