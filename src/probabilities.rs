use vstd::prelude::*;

use crate::outcome::{is_win_result, result_index, GameResult};

verus! {

/// Sum of the six slots of a tally or distribution.
pub open spec fn total6(s: Seq<nat>) -> nat {
    s[0] + s[1] + s[2] + s[3] + s[4] + s[5]
}

/// A rational number `num / den`.
#[derive(Clone, Copy, Debug, PartialEq, Eq, Structural)]
pub struct Fraction {
    pub num: i128,
    pub den: u64,
}

/// Distribution over the six outcomes, held exactly: each field is a numerator over
/// the common denominator `total`.
///
/// A distribution proper has `total > 0` and numerators that sum to `total`.
#[derive(Clone, Copy, Debug, PartialEq, Eq, Structural)]
pub struct Probabilities {
    pub win_n: u64,
    pub win_g: u64,
    pub win_b: u64,
    pub lose_n: u64,
    pub lose_g: u64,
    pub lose_b: u64,
    pub total: u64,
}

impl Probabilities {
    /// The six numerators, in result order.
    pub open spec fn slots(&self) -> Seq<nat> {
        seq![
            self.win_n as nat,
            self.win_g as nat,
            self.win_b as nat,
            self.lose_n as nat,
            self.lose_g as nat,
            self.lose_b as nat,
        ]
    }

    /// The fractions sum to one.
    pub open spec fn is_distribution(&self) -> bool {
        self.total > 0 && total6(self.slots()) == self.total as nat
    }

    /// Cubeless equity, as the numerator over `total`.
    pub open spec fn equity_num(&self) -> int {
        (self.win_n - self.lose_n) + 2 * (self.win_g - self.lose_g) + 3 * (self.win_b
            - self.lose_b)
    }

    pub open spec fn win_num(&self) -> int {
        self.win_n + self.win_g + self.win_b
    }

    /// The cumulative five-field form: win, win gammon or better, win backgammon,
    /// lose gammon or better, lose backgammon; each over `total`.
    pub open spec fn gnu_of(&self) -> Seq<u64> {
        seq![
            (self.win_n + self.win_g + self.win_b) as u64,
            (self.win_g + self.win_b) as u64,
            self.win_b,
            (self.lose_g + self.lose_b) as u64,
            self.lose_b,
        ]
    }

    /// Normalised tallies: tally `i` over the sum of all tallies.
    pub fn new(results: &[u32; 6]) -> (r: Probabilities)
        requires
            total6(tally_of(results@)) > 0,
        ensures
            r.slots() == tally_of(results@),
            r.total as nat == total6(tally_of(results@)),
            r.is_distribution(),
    {
        let sum: u64 = results[0] as u64 + results[1] as u64 + results[2] as u64 + results[3] as u64
            + results[4] as u64 + results[5] as u64;
        let r = Probabilities {
            win_n: results[0] as u64,
            win_g: results[1] as u64,
            win_b: results[2] as u64,
            lose_n: results[3] as u64,
            lose_g: results[4] as u64,
            lose_b: results[5] as u64,
            total: sum,
        };
        assert(r.slots() =~= tally_of(results@));
        r
    }

    /// All six fractions zero.
    pub fn empty() -> (r: Probabilities)
        ensures
            r.slots() == seq![0nat, 0nat, 0nat, 0nat, 0nat, 0nat],
            r.total == 1,
    {
        Probabilities { win_n: 0, win_g: 0, win_b: 0, lose_n: 0, lose_g: 0, lose_b: 0, total: 1 }
    }

    /// Probability of winning, whatever the margin.
    pub fn win_prob(&self) -> (r: Fraction)
        requires
            self.is_distribution(),
        ensures
            r.num == self.win_num(),
            r.den == self.total,
    {
        Fraction { num: self.win_n as i128 + self.win_g as i128 + self.win_b as i128, den: self.total }
    }

    /// The distribution that puts all weight on one result.
    pub fn from_result(result: &GameResult) -> (r: Probabilities)
        ensures
            r.total == 1,
            forall|i: int| 0 <= i < 6 ==> r.slots()[i] == if i == result_index(*result) {
                1nat
            } else {
                0nat
            },
            r.is_distribution(),
    {
        let mut r = Probabilities::empty();
        match result {
            GameResult::WinNormal => r.win_n = 1,
            GameResult::WinGammon => r.win_g = 1,
            GameResult::WinBackgammon => r.win_b = 1,
            GameResult::LoseNormal => r.lose_n = 1,
            GameResult::LoseGammon => r.lose_g = 1,
            GameResult::LoseBackgammon => r.lose_b = 1,
        }
        r
    }

    /// The same numerators over their own sum.
    pub fn normalized(&self) -> (r: Probabilities)
        requires
            total6(self.slots()) > 0,
            total6(self.slots()) <= u64::MAX,
        ensures
            r.slots() == self.slots(),
            r.total as nat == total6(self.slots()),
            r.is_distribution(),
    {
        let sum = self.win_n + self.win_g + self.win_b + self.lose_n + self.lose_g + self.lose_b;
        Probabilities { total: sum, ..*self }
    }

    /// The distribution seen from the opponent.
    pub fn flip(&self) -> (r: Probabilities)
        ensures
            r.win_n == self.lose_n,
            r.win_g == self.lose_g,
            r.win_b == self.lose_b,
            r.lose_n == self.win_n,
            r.lose_g == self.win_g,
            r.lose_b == self.win_b,
            r.total == self.total,
    {
        Probabilities {
            win_n: self.lose_n,
            win_g: self.lose_g,
            win_b: self.lose_b,
            lose_n: self.win_n,
            lose_g: self.win_g,
            lose_b: self.win_b,
            total: self.total,
        }
    }

    /// Cubeless equity: normal results count one point, gammons two, backgammons three.
    pub fn equity(&self) -> (r: Fraction)
        requires
            self.is_distribution(),
        ensures
            r.num == self.equity_num(),
            r.den == self.total,
    {
        let n = self.win_n as i128 - self.lose_n as i128;
        let g = self.win_g as i128 - self.lose_g as i128;
        let b = self.win_b as i128 - self.lose_b as i128;
        Fraction { num: n + 2 * g + 3 * b, den: self.total }
    }

    pub fn to_vec(&self) -> (r: Vec<u64>)
        ensures
            r@.map_values(|x: u64| x as nat) == self.slots(),
    {
        let r = vec![self.win_n, self.win_g, self.win_b, self.lose_n, self.lose_g, self.lose_b];
        assert(r@.map_values(|x: u64| x as nat) =~= self.slots());
        r
    }

    pub fn to_slice(&self) -> (r: [u64; 6])
        ensures
            r@.map_values(|x: u64| x as nat) == self.slots(),
    {
        let r = [self.win_n, self.win_g, self.win_b, self.lose_n, self.lose_g, self.lose_b];
        assert(r@.map_values(|x: u64| x as nat) =~= self.slots());
        r
    }

    /// The cumulative five-field form, over the same `total`.
    pub fn to_gnu(&self) -> (r: [u64; 5])
        requires
            self.is_distribution(),
        ensures
            r@ == self.gnu_of(),
    {
        let win_g = self.win_g + self.win_b;
        let lose_g = self.lose_g + self.lose_b;
        let r = [self.win_n + win_g, win_g, self.win_b, lose_g, self.lose_b];
        assert(r@ =~= self.gnu_of());
        r
    }

    /// Reads the cumulative five-field form over `total`. It is refused unless each
    /// cumulative value covers the next one, and the win and the gammon-or-worse losses
    /// fit in `total`.
    pub fn from_gnu(value: &[u64; 5], total: u64) -> (r: Option<Probabilities>)
        ensures
            r == if gnu_valid(value@, total) {
                Some(probs_from_gnu(value@, total))
            } else {
                None
            },
            r is Some ==> r->0.is_distribution(),
    {
        if total == 0 || value[0] > total || value[3] > total - value[0] || value[1] > value[0]
            || value[2] > value[1] || value[4] > value[3] {
            return None;
        }
        let r = Probabilities {
            win_n: value[0] - value[1],
            win_g: value[1] - value[2],
            win_b: value[2],
            lose_n: total - value[0] - value[3],
            lose_g: value[3] - value[4],
            lose_b: value[4],
            total,
        };
        Some(r)
    }
}

/// The five cumulative values describe a distribution over `total`.
pub open spec fn gnu_valid(v: Seq<u64>, total: u64) -> bool {
    &&& total > 0
    &&& v[0] + v[3] <= total
    &&& v[2] <= v[1] <= v[0]
    &&& v[4] <= v[3]
}

/// The distribution that a valid cumulative five-field form describes.
pub open spec fn probs_from_gnu(v: Seq<u64>, total: u64) -> Probabilities {
    Probabilities {
        win_n: (v[0] - v[1]) as u64,
        win_g: (v[1] - v[2]) as u64,
        win_b: v[2],
        lose_n: (total - v[0] - v[3]) as u64,
        lose_g: (v[3] - v[4]) as u64,
        lose_b: v[4],
        total,
    }
}

/// Tallies as natural numbers.
pub open spec fn tally_of(s: Seq<u32>) -> Seq<nat> {
    s.map_values(|x: u32| x as nat)
}

/// Tallies of the six results.
pub struct ResultCounter {
    results: [u32; 6],
}

impl View for ResultCounter {
    type V = Seq<nat>;

    closed spec fn view(&self) -> Seq<nat> {
        tally_of(self.results@)
    }
}

impl Default for ResultCounter {
    fn default() -> (r: ResultCounter)
        ensures
            r@ == seq![0nat, 0nat, 0nat, 0nat, 0nat, 0nat],
    {
        ResultCounter::new(0, 0, 0, 0, 0, 0)
    }
}

impl ResultCounter {
    /// A counter holding the given tallies.
    pub fn new(win_n: u32, win_g: u32, win_b: u32, lose_n: u32, lose_g: u32, lose_b: u32) -> (r:
        ResultCounter)
        ensures
            r@ == seq![
                win_n as nat,
                win_g as nat,
                win_b as nat,
                lose_n as nat,
                lose_g as nat,
                lose_b as nat,
            ],
    {
        let results = [win_n, win_g, win_b, lose_n, lose_g, lose_b];
        let r = ResultCounter { results };
        assert(r@ =~= seq![
            win_n as nat,
            win_g as nat,
            win_b as nat,
            lose_n as nat,
            lose_g as nat,
            lose_b as nat,
        ]);
        r
    }

    pub proof fn lemma_len(&self)
        ensures
            self@.len() == 6,
    {
    }

    /// Counts one more game that ended with `result`.
    pub fn add(&mut self, result: GameResult)
        requires
            old(self)@[result_index(result)] < u32::MAX,
        ensures
            final(self)@ == old(self)@.update(
                result_index(result),
                (old(self)@[result_index(result)] + 1) as nat,
            ),
    {
        self.add_results(result, 1);
    }

    /// Counts `amount` more games that ended with `result`.
    pub fn add_results(&mut self, result: GameResult, amount: u32)
        requires
            old(self)@[result_index(result)] + amount <= u32::MAX,
        ensures
            final(self)@ == old(self)@.update(
                result_index(result),
                (old(self)@[result_index(result)] + amount) as nat,
            ),
    {
        let i = result.index();
        self.results[i] = self.results[i] + amount;
        assert(self@ =~= old(self)@.update(
            result_index(result),
            (old(self)@[result_index(result)] + amount) as nat,
        ));
    }

    /// Number of games counted.
    pub fn sum(&self) -> (r: u32)
        requires
            total6(self@) <= u32::MAX,
        ensures
            r as nat == total6(self@),
    {
        self.results[0] + self.results[1] + self.results[2] + self.results[3] + self.results[4]
            + self.results[5]
    }

    /// Number of games that ended with `result`.
    pub fn num_of(&self, result: GameResult) -> (r: u32)
        ensures
            r as nat == self@[result_index(result)],
    {
        self.results[result.index()]
    }

    /// Pointwise sum of two counters.
    pub fn combine(self, counter: &ResultCounter) -> (r: ResultCounter)
        requires
            forall|i: int| 0 <= i < 6 ==> self@[i] + counter@[i] <= u32::MAX,
        ensures
            forall|i: int| 0 <= i < 6 ==> r@[i] == self@[i] + counter@[i],
            r@.len() == 6,
    {
        let mut results = self.results;
        let mut i: usize = 0;
        while i < 6
            invariant
                0 <= i <= 6,
                forall|j: int| 0 <= j < 6 ==> self@[j] + counter@[j] <= u32::MAX,
                forall|j: int| 0 <= j < i ==> results[j] == self.results[j] + counter.results[j],
                forall|j: int| i <= j < 6 ==> results[j] == self.results[j],
            decreases 6 - i,
        {
            assert(self@[i as int] == self.results[i as int]);
            assert(counter@[i as int] == counter.results[i as int]);
            results[i] = results[i] + counter.results[i];
            i = i + 1;
        }
        ResultCounter { results }
    }

    /// The tallies as a distribution.
    pub fn probabilities(&self) -> (r: Probabilities)
        requires
            total6(self@) > 0,
        ensures
            r == counts_to_probs(self@),
            r.is_distribution(),
    {
        Probabilities::new(&self.results)
    }
}

/// The distribution of a tally: each count over the total count.
pub open spec fn counts_to_probs(c: Seq<nat>) -> Probabilities {
    Probabilities {
        win_n: c[0] as u64,
        win_g: c[1] as u64,
        win_b: c[2] as u64,
        lose_n: c[3] as u64,
        lose_g: c[4] as u64,
        lose_b: c[5] as u64,
        total: total6(c) as u64,
    }
}

/// The fractions of a distribution drawn from a non-empty tally add up to one.
pub proof fn lemma_tally_distribution_sums_to_one(c: ResultCounter)
    requires
        total6(c@) > 0,
    ensures
        counts_to_probs(c@).is_distribution(),
        total6(counts_to_probs(c@).slots()) == counts_to_probs(c@).total,
{
    assert(c@.len() == 6);
    assert forall|i: int| 0 <= i < 6 implies c@[i] <= u32::MAX by {}
}

/// Going to the cumulative five-field form and back gives the same distribution.
pub proof fn lemma_gnu_round_trip(p: Probabilities)
    requires
        p.is_distribution(),
    ensures
        gnu_valid(p.gnu_of(), p.total),
        probs_from_gnu(p.gnu_of(), p.total) == p,
{
}

/// A certain backgammon win is worth three points; a certain backgammon loss, minus three.
pub proof fn lemma_equity_extremes(p: Probabilities)
    requires
        p.is_distribution(),
    ensures
        p.win_b == p.total ==> p.equity_num() == 3 * p.total,
        p.lose_b == p.total ==> p.equity_num() == -3 * p.total,
        -3 * p.total <= p.equity_num() <= 3 * p.total,
{
}

/// A single result as a distribution: a win is worth `1`, `2` or `3` points, a loss the
/// opposite.
pub proof fn lemma_result_equity(result: GameResult, p: Probabilities)
    requires
        p.total == 1,
        forall|i: int| 0 <= i < 6 ==> p.slots()[i] == if i == result_index(result) {
            1nat
        } else {
            0nat
        },
    ensures
        p.equity_num() == if is_win_result(result) {
            result_index(result) + 1
        } else {
            -(result_index(result) - 2)
        },
{
    assert(p.slots()[0] == p.win_n as nat);
    assert(p.slots()[1] == p.win_g as nat);
    assert(p.slots()[2] == p.win_b as nat);
    assert(p.slots()[3] == p.lose_n as nat);
    assert(p.slots()[4] == p.lose_g as nat);
    assert(p.slots()[5] == p.lose_b as nat);
}

} // verus!
