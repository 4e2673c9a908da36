use vstd::prelude::*;

use vstd::arithmetic::div_mod::lemma_div_denominator;

use crate::board::db_index;
use crate::dice::Roll;
use crate::evaluator::Evaluator;
use crate::fstate::{next_states, FState};

verus! {

/// Bytes in one record of the database: five little-endian 32-bit floats.
pub const RECORD_BYTES: usize = 20;

/// Records in a complete hypergammon database: one per pair of placements of three
/// checkers over 26 slots for each side, `C(28, 3)` squared.
pub const POSSIBLE: usize = 10732176;

/// The little-endian 32-bit word at byte `at`.
pub open spec fn le_u32(b: Seq<u8>, at: int) -> int {
    b[at] + 256 * b[at + 1] + 65536 * b[at + 2] + 16777216 * b[at + 3]
}

/// The five words of record `i`: the bit patterns of the cumulative probabilities of a
/// win, a gammon or better, a backgammon, a gammon loss or worse, and a backgammon loss.
pub open spec fn record_words(b: Seq<u8>, i: int) -> Seq<int> {
    Seq::new(5, |j: int| le_u32(b, 20 * i + 4 * j))
}

/// A record's words as integers.
pub open spec fn words(r: [u32; 5]) -> Seq<int> {
    r@.map_values(|w: u32| w as int)
}

/// The table of exact outcome probabilities, one record per board index.
pub struct HyperEvaluator {
    records: Vec<[u32; 5]>,
}

impl View for HyperEvaluator {
    type V = Seq<Seq<int>>;

    closed spec fn view(&self) -> Seq<Seq<int>> {
        self.records@.map_values(|r: [u32; 5]| words(r))
    }
}

/// Reads the word at byte `at`.
fn read_u32(bytes: &[u8], at: usize) -> (r: u32)
    requires
        at + 4 <= bytes@.len(),
    ensures
        r as int == le_u32(bytes@, at as int),
{
    bytes[at] as u32 + 256 * bytes[at + 1] as u32 + 65536 * bytes[at + 2] as u32 + 16777216
        * bytes[at + 3] as u32
}

impl HyperEvaluator {
    /// Reads the records of `bytes`. The table is refused unless it is exactly `expected`
    /// whole records: a count mismatch or a truncated last record makes it unavailable.
    pub fn from_records(bytes: &[u8], expected: usize) -> (r: Option<HyperEvaluator>)
        ensures
            r is Some <==> bytes@.len() == 20 * expected,
            r is Some ==> r->0@.len() == expected && forall|i: int|
                0 <= i < expected ==> #[trigger] r->0@[i] == record_words(bytes@, i),
    {
        let n = bytes.len() / RECORD_BYTES;
        assert(n * 20 <= bytes@.len());
        if n != expected || bytes.len() % RECORD_BYTES != 0 {
            return None;
        }
        let mut records: Vec<[u32; 5]> = Vec::new();
        let mut i: usize = 0;
        while i < n
            invariant
                n == bytes@.len() / 20,
                n * 20 <= bytes@.len(),
                bytes@.len() <= usize::MAX,
                0 <= i <= n,
                records@.len() == i,
                forall|k: int|
                    0 <= k < i ==> words(#[trigger] records@[k]) == record_words(bytes@, k),
            decreases n - i,
        {
            assert(i * 20 + 20 <= n * 20) by (nonlinear_arith)
                requires
                    i < n,
            ;
            let at = i * RECORD_BYTES;
            let rec = [
                read_u32(bytes, at),
                read_u32(bytes, at + 4),
                read_u32(bytes, at + 8),
                read_u32(bytes, at + 12),
                read_u32(bytes, at + 16),
            ];
            assert(words(rec) =~= record_words(bytes@, i as int));
            records.push(rec);
            i = i + 1;
        }
        let r = HyperEvaluator { records };
        assert forall|k: int| 0 <= k < expected implies #[trigger] r@[k] == record_words(
            bytes@,
            k,
        ) by {
            assert(r@[k] == words(records@[k]));
        }
        Some(r)
    }

    /// Reads a complete hypergammon database; `None` unless it is exactly `POSSIBLE`
    /// whole records.
    pub fn from_bytes(bytes: &[u8]) -> (r: Option<HyperEvaluator>)
        ensures
            r is Some <==> bytes@.len() == 20 * POSSIBLE,
            r is Some ==> r->0@.len() == POSSIBLE && forall|i: int|
                0 <= i < POSSIBLE ==> #[trigger] r->0@[i] == record_words(bytes@, i),
    {
        HyperEvaluator::from_records(bytes, POSSIBLE)
    }

    /// Number of records.
    pub fn len(&self) -> (r: usize)
        ensures
            r == self@.len(),
    {
        self.records.len()
    }

    /// The words of the record at `index`, if there is one.
    pub fn record(&self, index: usize) -> (r: Option<[u32; 5]>)
        ensures
            r is Some <==> index < self@.len(),
            r is Some ==> words(r->0) == self@[index as int],
    {
        if index < self.records.len() {
            Some(self.records[index])
        } else {
            None
        }
    }

    /// The record of a position, by the index of its board as the mover sees it.
    pub fn lookup(&self, pos: &FState) -> (r: Option<[u32; 5]>)
        requires
            pos.wf(),
        ensures
            r is Some <==> crate::board::db_index(pos.state.pips@) < self@.len(),
            r is Some ==> words(r->0) == self@[crate::board::db_index(
                pos.state.pips@,
            ) as int],
    {
        self.record(pos.dbhash())
    }
}

/// 2 to the power `n`.
pub open spec fn two_to(n: nat) -> nat
    decreases n,
{
    if n == 0 {
        1
    } else {
        2 * two_to((n - 1) as nat)
    }
}

/// The single-precision float with bit pattern `w`, in units of 2^-64 rounded down, when
/// it is a number from 0 up to (not including) 2, negative zero included; `None` for a
/// negative number, a larger one, an infinity or NaN.
pub open spec fn fixed_of(w: int) -> Option<int> {
    let exp = w / 8388608;
    let sig = w % 8388608 + 8388608;
    if w == 2147483648 {
        Some(0)
    } else if w < 0 || w >= 2147483648 || exp >= 128 {
        None
    } else if exp == 0 {
        Some(0)
    } else if exp >= 86 {
        Some(sig * two_to((exp - 86) as nat))
    } else {
        Some(sig / (two_to((86 - exp) as nat) as int))
    }
}

/// Cubeless equity of a record, in units of 2^-64: the five cumulative values `a` to `e`
/// give `(a - b) - (1 - a - d) + 2 ((b - c) - (d - e)) + 3 (c - e)`.
pub open spec fn record_equity(w: Seq<int>) -> Option<int> {
    match (fixed_of(w[0]), fixed_of(w[1]), fixed_of(w[2]), fixed_of(w[3]), fixed_of(w[4])) {
        (Some(a), Some(b), Some(c), Some(d), Some(e)) => Some(
            2 * a + b + c - d - e - two_to(64),
        ),
        _ => None,
    }
}

/// Equity of the record of a position, if the table has one that holds numbers.
pub open spec fn equity_at(table: Seq<Seq<int>>, p: FState) -> Option<int> {
    let k = db_index(p.state.pips@);
    if k < table.len() {
        record_equity(table[k as int])
    } else {
        None
    }
}

/// A candidate's equity beats the best so far: it is known and lower, or the best so far
/// is unknown.
pub open spec fn lower(e: Option<int>, best: Option<int>) -> bool {
    match (e, best) {
        (Some(x), Some(y)) => x < y,
        (Some(_), None) => true,
        _ => false,
    }
}

/// The first of the first `n` candidates of least equity, and that equity.
pub open spec fn db_best_upto(table: Seq<Seq<int>>, cands: Seq<FState>, n: int) -> (
    FState,
    Option<int>,
)
    decreases n,
{
    if n <= 1 {
        (cands[0], equity_at(table, cands[0]))
    } else {
        let prev = db_best_upto(table, cands, n - 1);
        let e = equity_at(table, cands[n - 1]);
        if lower(e, prev.1) {
            (cands[n - 1], e)
        } else {
            prev
        }
    }
}

proof fn lemma_two_to_pos(n: nat)
    ensures
        two_to(n) > 0,
    decreases n,
{
    if n > 0 {
        lemma_two_to_pos((n - 1) as nat);
    }
}

proof fn lemma_two_to_le(n: nat, m: nat)
    requires
        n <= m,
    ensures
        two_to(n) <= two_to(m),
    decreases m,
{
    if n < m {
        lemma_two_to_le(n, (m - 1) as nat);
        lemma_two_to_pos((m - 1) as nat);
    }
}

proof fn lemma_two_to_values()
    ensures
        two_to(0) == 1,
        two_to(41) == 2199023255552,
        two_to(64) == 18446744073709551616,
{
    reveal_with_fuel(two_to, 65);
}

/// A decoded value is at most 2^65 units.
proof fn lemma_fixed_bound(w: int)
    ensures
        fixed_of(w) is Some ==> 0 <= fixed_of(w)->0 <= 36893488147419103232,
{
    lemma_two_to_values();
    let exp = w / 8388608;
    let sig = w % 8388608 + 8388608;
    if 0 <= w < 2147483648 && 86 <= exp < 128 {
        lemma_two_to_le((exp - 86) as nat, 41);
        lemma_two_to_pos((exp - 86) as nat);
        assert(sig * two_to((exp - 86) as nat) <= 16777216 * 2199023255552) by (nonlinear_arith)
            requires
                0 <= sig < 16777216,
                0 < two_to((exp - 86) as nat) <= 2199023255552,
        ;
    } else if 0 <= w < 2147483648 && 0 < exp < 86 {
        lemma_two_to_pos((86 - exp) as nat);
        vstd::arithmetic::div_mod::lemma_div_is_ordered_by_denominator(
            sig,
            1,
            two_to((86 - exp) as nat) as int,
        );
        vstd::arithmetic::div_mod::lemma_div_pos_is_pos(sig, two_to((86 - exp) as nat) as int);
    }
}

proof fn lemma_db_best_in(table: Seq<Seq<int>>, cands: Seq<FState>, n: int)
    requires
        1 <= n <= cands.len(),
    ensures
        exists|i: int| 0 <= i < n && cands[i] == db_best_upto(table, cands, n).0,
    decreases n,
{
    if n == 1 {
        assert(cands[0] == db_best_upto(table, cands, n).0);
    } else {
        lemma_db_best_in(table, cands, n - 1);
        let prev = db_best_upto(table, cands, n - 1);
        if lower(equity_at(table, cands[n - 1]), prev.1) {
            assert(cands[n - 1] == db_best_upto(table, cands, n).0);
        } else {
            let j = choose|j: int| 0 <= j < n - 1 && cands[j] == prev.0;
            assert(cands[j] == db_best_upto(table, cands, n).0);
        }
    }
}

/// Decodes a float bit pattern to fixed point.
fn fixed(w: u32) -> (r: Option<u128>)
    ensures
        r is Some <==> fixed_of(w as int) is Some,
        r is Some ==> r->0 as int == fixed_of(w as int)->0,
{
    proof {
        lemma_two_to_values();
        lemma_fixed_bound(w as int);
    }
    if w == 2147483648 {
        return Some(0);
    }
    if w > 2147483648 {
        return None;
    }
    let exp: u32 = w / 8388608;
    if exp >= 128 {
        return None;
    }
    if exp == 0 {
        return Some(0);
    }
    let sig: u128 = (w % 8388608 + 8388608) as u128;
    let mut v: u128 = sig;
    if exp >= 86 {
        let mut k: u32 = 86;
        assert(v == sig * two_to((k - 86) as nat)) by (nonlinear_arith)
            requires
                v == sig,
                k == 86,
                two_to(0) == 1,
        ;
        while k < exp
            invariant
                86 <= k <= exp,
                exp < 128,
                sig < 16777216,
                v == sig * two_to((k - 86) as nat),
                two_to(41) == 2199023255552,
            decreases exp - k,
        {
            proof {
                lemma_two_to_le((k - 86) as nat, 41);
                assert(sig * two_to((k - 86) as nat) <= 16777216 * 2199023255552) by (nonlinear_arith)
                    requires
                        sig < 16777216,
                        two_to((k - 86) as nat) <= 2199023255552,
                ;
                assert(two_to((k + 1 - 86) as nat) == 2 * two_to((k - 86) as nat));
                assert(v * 2 == sig * two_to((k + 1 - 86) as nat)) by (nonlinear_arith)
                    requires
                        v == sig * two_to((k - 86) as nat),
                        two_to((k + 1 - 86) as nat) == 2 * two_to((k - 86) as nat),
                ;
            }
            v = v * 2;
            k = k + 1;
        }
        Some(v)
    } else {
        let mut k: u32 = exp;
        assert(v == (sig as int) / (two_to((k - exp) as nat) as int)) by (nonlinear_arith)
            requires
                v == sig,
                k == exp,
                two_to(0) == 1,
        ;
        while k < 86
            invariant
                exp <= k <= 86,
                v == (sig as int) / (two_to((k - exp) as nat) as int),
            decreases 86 - k,
        {
            proof {
                lemma_two_to_pos((k - exp) as nat);
                lemma_div_denominator(sig as int, two_to((k - exp) as nat) as int, 2);
                assert(two_to((k + 1 - exp) as nat) == two_to((k - exp) as nat) * 2);
            }
            v = v / 2;
            k = k + 1;
        }
        Some(v)
    }
}

/// Equity of a record, in units of 2^-64.
pub fn record_equity_of(w: &[u32; 5]) -> (r: Option<i128>)
    ensures
        r is Some <==> record_equity(words(*w)) is Some,
        r is Some ==> r->0 as int == record_equity(words(*w))->0,
{
    let ghost ws = words(*w);
    assert(ws[0] == w[0] as int && ws[1] == w[1] as int && ws[2] == w[2] as int && ws[3] == w[3]
        as int && ws[4] == w[4] as int);
    proof {
        lemma_two_to_values();
        lemma_fixed_bound(ws[0]);
        lemma_fixed_bound(ws[1]);
        lemma_fixed_bound(ws[2]);
        lemma_fixed_bound(ws[3]);
        lemma_fixed_bound(ws[4]);
    }
    let a = fixed(w[0]);
    let b = fixed(w[1]);
    let c = fixed(w[2]);
    let d = fixed(w[3]);
    let e = fixed(w[4]);
    match (a, b, c, d, e) {
        (Some(a), Some(b), Some(c), Some(d), Some(e)) => Some(
            2 * (a as i128) + b as i128 + c as i128 - d as i128 - e as i128 - 18446744073709551616,
        ),
        _ => None,
    }
}

impl HyperEvaluator {
    /// Equity of the record of `p`, in units of 2^-64, if the table has one that holds
    /// numbers.
    pub fn equity_of(&self, p: &FState) -> (r: Option<i128>)
        requires
            p.wf(),
        ensures
            r is Some <==> equity_at(self@, *p) is Some,
            r is Some ==> r->0 as int == equity_at(self@, *p)->0,
    {
        match self.lookup(p) {
            Some(w) => record_equity_of(&w),
            None => None,
        }
    }

    /// The successor of least equity according to the table, the first of equal ones.
    /// The records are indexed by the successor's own board, which the opponent moves
    /// next, so the least equity for the opponent is the best move. Successors without a
    /// usable record are passed over unless none has one.
    pub fn lowest_equity_successor(&self, pos: &FState, dice: Roll) -> (r: FState)
        requires
            pos.wf(),
            pos.is_ongoing(),
            dice.wf(),
        ensures
            r == db_best_upto(self@, next_states(*pos, dice), next_states(*pos, dice).len() as int).0,
            next_states(*pos, dice).contains(r),
            r.wf(),
    {
        let cands = pos.possible_positions(dice);
        let mut best = cands[0];
        let mut best_e = self.equity_of(&cands[0]);
        let mut i: usize = 1;
        while i < cands.len()
            invariant
                1 <= i <= cands@.len(),
                cands@ == next_states(*pos, dice),
                forall|k: int| 0 <= k < cands@.len() ==> (#[trigger] cands@[k]).wf(),
                best == db_best_upto(self@, cands@, i as int).0,
                best_e is Some <==> db_best_upto(self@, cands@, i as int).1 is Some,
                best_e is Some ==> best_e->0 as int == db_best_upto(self@, cands@, i as int).1->0,
                best.wf(),
            decreases cands@.len() - i,
        {
            let e = self.equity_of(&cands[i]);
            let better = match (e, best_e) {
                (Some(x), Some(y)) => x < y,
                (Some(_), None) => true,
                _ => false,
            };
            if better {
                best = cands[i];
                best_e = e;
            }
            i = i + 1;
        }
        proof {
            lemma_db_best_in(self@, cands@, cands@.len() as int);
        }
        best
    }
}

impl Evaluator for HyperEvaluator {
    /// The first successor of least equity in the table.
    open spec fn chooses(&self, pos: FState, dice: Roll, r: FState) -> bool {
        r == db_best_upto(self@, next_states(pos, dice), next_states(pos, dice).len() as int).0
    }

    fn best_position(&self, pos: &FState, dice: Roll) -> (r: FState) {
        self.lowest_equity_successor(pos, dice)
    }
}

} // verus!
