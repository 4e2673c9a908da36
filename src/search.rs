use vstd::prelude::*;

use std::collections::HashMap;

use crate::board::{db_index, flipped, Board};
use crate::dice::{all_21, roll_table, roll_weight, weight_sum, Roll};
use crate::fstate::{next_states, FState};
use crate::outcome::{is_win_result, GameResult, GameState};

verus! {

broadcast use vstd::std_specs::hash::group_hash_axioms;

/// Fixed-point one: value-function outputs lie in `0..=VALUE_ONE`, standing for `[0, 1]`.
pub const VALUE_ONE: u64 = 16777216;

/// Value of a finished game for the side to move in it: one for any win, zero for any
/// loss.
pub open spec fn result_value(r: GameResult) -> int {
    if is_win_result(r) {
        VALUE_ONE as int
    } else {
        0
    }
}

/// The board the value function scores for successor `p` of `pos`: flipped when the
/// search runs on the second player's turn.
pub open spec fn input_pips(pos: FState, p: FState) -> Seq<i8> {
    if pos.turn {
        p.state.pips@
    } else {
        flipped(p.state.pips@)
    }
}

/// Value-function output for successor `p` of `pos`, from the table of outputs keyed by
/// board index; a board missing from the table scores zero.
pub open spec fn leaf_value(values: Map<usize, u64>, pos: FState, p: FState) -> int {
    let k = db_index(input_pips(pos, p)) as usize;
    if values.contains_key(k) {
        values[k] as int
    } else {
        0
    }
}

/// Whether the search picks the successor of least value. Each ply passes the benefit to
/// the other side, so this flips with both the turn and the polarity.
pub open spec fn picks_min(pos: FState, maxer: bool) -> bool {
    pos.turn == maxer
}

/// A later candidate replaces the best so far: the first of equal minima is kept, the
/// last of equal maxima.
pub open spec fn improves(pick_min: bool, v: int, best: int) -> bool {
    if pick_min {
        v < best
    } else {
        v >= best
    }
}

/// Outputs in range, and a table of distinct rolls weighted by frequency.
pub open spec fn search_inputs_ok(values: Map<usize, u64>, table: Seq<(Roll, u64)>) -> bool {
    &&& forall|k: usize| values.contains_key(k) ==> values[k] <= VALUE_ONE
    &&& table.len() == 21
    &&& weight_sum(table) == 36
    &&& forall|i: int| 0 <= i < table.len() ==> table[i].0.wf() && table[i].1 == roll_weight(table[i].0)
}

/// Value of successor `p` of `pos` in a search of `depth` plies: the value-function output
/// at the last ply; otherwise the known value of a finished game, or the weighted average
/// over the rolls of the best reply one ply shallower.
pub open spec fn cand_value(
    depth: int,
    maxer: bool,
    pos: FState,
    p: FState,
    values: Map<usize, u64>,
    table: Seq<(Roll, u64)>,
) -> int
    decreases depth, 1int, 0int,
{
    if depth <= 1 {
        leaf_value(values, pos, p)
    } else {
        match p.state.state() {
            GameState::GameOver(r) => if !pos.turn {
                result_value(r)
            } else {
                VALUE_ONE - result_value(r)
            },
            GameState::Ongoing => dice_sum(depth - 1, !maxer, p, table.len() as int, values, table)
                / 36,
        }
    }
}

/// Weighted sum, over the first `n` rolls of the table, of the value of the best move
/// from `p`.
pub open spec fn dice_sum(
    depth: int,
    maxer: bool,
    p: FState,
    n: int,
    values: Map<usize, u64>,
    table: Seq<(Roll, u64)>,
) -> int
    decreases depth + 1, 0int, n,
{
    if n <= 0 || depth < 1 {
        0
    } else {
        dice_sum(depth, maxer, p, n - 1, values, table) + table[n - 1].1 * nply_spec(
            depth,
            maxer,
            p,
            table[n - 1].0,
            values,
            table,
        ).1
    }
}

/// The best of the first `n` candidates and its value.
pub open spec fn best_upto(
    depth: int,
    maxer: bool,
    pos: FState,
    cands: Seq<FState>,
    n: int,
    values: Map<usize, u64>,
    table: Seq<(Roll, u64)>,
) -> (FState, int)
    decreases depth, 2int, n,
{
    if n <= 1 {
        (cands[0], cand_value(depth, maxer, pos, cands[0], values, table))
    } else {
        let prev = best_upto(depth, maxer, pos, cands, n - 1, values, table);
        let v = cand_value(depth, maxer, pos, cands[n - 1], values, table);
        if improves(picks_min(pos, maxer), v, prev.1) {
            (cands[n - 1], v)
        } else {
            prev
        }
    }
}

/// The move an expectimax search of `depth` plies picks from `pos` with `dice`, and its
/// value.
pub open spec fn nply_spec(
    depth: int,
    maxer: bool,
    pos: FState,
    dice: Roll,
    values: Map<usize, u64>,
    table: Seq<(Roll, u64)>,
) -> (FState, int)
    decreases depth, 3int, 0int,
{
    let cands = next_states(pos, dice);
    best_upto(depth, maxer, pos, cands, cands.len() as int, values, table)
}

/// The best of the first `n` candidates is one of them, has the value the search gives it,
/// and no candidate among them beats it.
pub proof fn lemma_best_upto(
    depth: int,
    maxer: bool,
    pos: FState,
    cands: Seq<FState>,
    n: int,
    values: Map<usize, u64>,
    table: Seq<(Roll, u64)>,
)
    requires
        1 <= n <= cands.len(),
    ensures
        ({
            let b = best_upto(depth, maxer, pos, cands, n, values, table);
            &&& exists|i: int| 0 <= i < n && cands[i] == b.0
            &&& b.1 == cand_value(depth, maxer, pos, b.0, values, table)
            &&& forall|i: int|
                0 <= i < n ==> if picks_min(pos, maxer) {
                    b.1 <= #[trigger] cand_value(depth, maxer, pos, cands[i], values, table)
                } else {
                    b.1 >= #[trigger] cand_value(depth, maxer, pos, cands[i], values, table)
                }
        }),
    decreases n,
{
    let b = best_upto(depth, maxer, pos, cands, n, values, table);
    if n == 1 {
        assert(cands[0] == b.0);
    } else {
        lemma_best_upto(depth, maxer, pos, cands, n - 1, values, table);
        let prev = best_upto(depth, maxer, pos, cands, n - 1, values, table);
        let v = cand_value(depth, maxer, pos, cands[n - 1], values, table);
        if improves(picks_min(pos, maxer), v, prev.1) {
            assert(cands[n - 1] == b.0);
        } else {
            let j = choose|j: int| 0 <= j < n - 1 && cands[j] == prev.0;
            assert(cands[j] == b.0);
        }
    }
}

/// At depth one the search ranks the successors by the value function alone: it picks
/// a successor whose output is least (or greatest, by the polarity rule) among all of
/// them, with no averaging over rolls.
pub proof fn lemma_depth_one_is_flat_ranking(
    maxer: bool,
    pos: FState,
    dice: Roll,
    values: Map<usize, u64>,
    table: Seq<(Roll, u64)>,
)
    requires
        next_states(pos, dice).len() > 0,
    ensures
        ({
            let cands = next_states(pos, dice);
            let b = nply_spec(1, maxer, pos, dice, values, table);
            &&& cands.contains(b.0)
            &&& b.1 == leaf_value(values, pos, b.0)
            &&& forall|i: int|
                0 <= i < cands.len() ==> if picks_min(pos, maxer) {
                    b.1 <= #[trigger] leaf_value(values, pos, cands[i])
                } else {
                    b.1 >= #[trigger] leaf_value(values, pos, cands[i])
                }
        }),
{
    let cands = next_states(pos, dice);
    lemma_best_upto(1, maxer, pos, cands, cands.len() as int, values, table);
    let b = nply_spec(1, maxer, pos, dice, values, table);
    let i = choose|i: int| 0 <= i < cands.len() && cands[i] == b.0;
    assert(cands[i] == b.0);
    assert forall|i: int| 0 <= i < cands.len() implies #[trigger] leaf_value(values, pos, cands[i])
        == cand_value(1, maxer, pos, cands[i], values, table) by {}
}

/// Value of successor `p` of `pos` in a search of `depth` plies.
fn candidate_value(
    depth: u8,
    maxer: bool,
    pos: &FState,
    p: &FState,
    values: &HashMap<usize, u64>,
    table: &Vec<(Roll, u64)>,
) -> (r: u64)
    requires
        depth >= 1,
        pos.wf(),
        p.wf(),
        search_inputs_ok(values@, table@),
    ensures
        r as int == cand_value(depth as int, maxer, *pos, *p, values@, table@),
        r <= VALUE_ONE,
    decreases depth, 0int,
{
    if depth <= 1 {
        let b: Board = if pos.turn {
            p.state
        } else {
            p.state.flip()
        };
        let k = b.dbhash();
        return match values.get(&k) {
            Some(v) => *v,
            None => 0,
        };
    }
    match p.game_state() {
        GameState::GameOver(result) => {
            let rv = terminal_value(&result);
            if !pos.turn {
                rv
            } else {
                VALUE_ONE - rv
            }
        },
        GameState::Ongoing => {
            let mut total: u64 = 0;
            let mut k: usize = 0;
            while k < table.len()
                invariant
                    1 <= depth - 1,
                    p.wf(),
                    p.is_ongoing(),
                    search_inputs_ok(values@, table@),
                    0 <= k <= table@.len(),
                    total as int == dice_sum(
                        (depth - 1) as int,
                        !maxer,
                        *p,
                        k as int,
                        values@,
                        table@,
                    ),
                    total <= weight_sum(table@.subrange(0, k as int)) * VALUE_ONE,
                    weight_sum(table@.subrange(0, k as int)) <= 2 * k,
                decreases table@.len() - k,
            {
                let (roll, w) = table[k];
                let (_, v) = search(depth - 1, !maxer, p, roll, values, table);
                assert(table@.subrange(0, k + 1).drop_last() =~= table@.subrange(0, k as int));
                assert(w <= 2);
                proof {
                    let ws = weight_sum(table@.subrange(0, k as int));
                    assert(total + w * v <= (ws + w) * VALUE_ONE) by (nonlinear_arith)
                        requires
                            total <= ws * VALUE_ONE,
                            v <= VALUE_ONE,
                            w <= 2,
                    ;
                }
                total = total + w * v;
                k = k + 1;
            }
            assert(table@.subrange(0, table@.len() as int) =~= table@);
            total / 36
        },
    }
}

/// The move a search of `depth` plies picks, and its value.
fn search(
    depth: u8,
    maxer: bool,
    pos: &FState,
    dice: Roll,
    values: &HashMap<usize, u64>,
    table: &Vec<(Roll, u64)>,
) -> (r: (FState, u64))
    requires
        depth >= 1,
        pos.wf(),
        pos.is_ongoing(),
        dice.wf(),
        search_inputs_ok(values@, table@),
    ensures
        r.0 == nply_spec(depth as int, maxer, *pos, dice, values@, table@).0,
        r.1 as int == nply_spec(depth as int, maxer, *pos, dice, values@, table@).1,
        r.1 <= VALUE_ONE,
        r.0.wf(),
        next_states(*pos, dice).len() > 0,
    decreases depth, 1int,
{
    let cands = pos.possible_positions(dice);
    let pick_min = pos.turn == maxer;
    let mut best = cands[0];
    let mut best_v = candidate_value(depth, maxer, pos, &cands[0], values, table);
    let mut i: usize = 1;
    while i < cands.len()
        invariant
            1 <= i <= cands@.len(),
            cands@ == next_states(*pos, dice),
            forall|k: int| 0 <= k < cands@.len() ==> (#[trigger] cands@[k]).wf(),
            depth >= 1,
            pos.wf(),
            search_inputs_ok(values@, table@),
            pick_min == picks_min(*pos, maxer),
            best == best_upto(depth as int, maxer, *pos, cands@, i as int, values@, table@).0,
            best_v as int == best_upto(depth as int, maxer, *pos, cands@, i as int, values@, table@).1,
            best_v <= VALUE_ONE,
            best.wf(),
        decreases cands@.len() - i,
    {
        let v = candidate_value(depth, maxer, pos, &cands[i], values, table);
        if (pick_min && v < best_v) || (!pick_min && v >= best_v) {
            best = cands[i];
            best_v = v;
        }
        i = i + 1;
    }
    (best, best_v)
}

/// Expectimax search of `depth` plies from `pos` with `dice`: the move picked and its
/// value, given the value-function outputs keyed by board index.
pub fn nply(depth: u8, maxer: bool, pos: &FState, dice: Roll, values: &HashMap<usize, u64>) -> (r: (
    FState,
    u64,
))
    requires
        depth >= 1,
        pos.wf(),
        pos.is_ongoing(),
        dice.wf(),
        forall|k: usize| values@.contains_key(k) ==> values@[k] <= VALUE_ONE,
    ensures
        r.0 == nply_spec(depth as int, maxer, *pos, dice, values@, roll_table()).0,
        r.1 as int == nply_spec(depth as int, maxer, *pos, dice, values@, roll_table()).1,
        r.1 <= VALUE_ONE,
        r.0.wf(),
        next_states(*pos, dice).contains(r.0),
{
    let table = all_21();
    let r = search(depth, maxer, pos, dice, values, &table);
    proof {
        let cands = next_states(*pos, dice);
        lemma_best_upto(depth as int, maxer, *pos, cands, cands.len() as int, values@, table@);
        let i = choose|i: int| 0 <= i < cands.len() && cands[i] == r.0;
        assert(cands[i] == r.0);
    }
    r
}

/// The one-ply search: the successor that the value function ranks best.
pub fn finder(maxer: bool, pos: &FState, dice: Roll, values: &HashMap<usize, u64>) -> (r: (
    FState,
    u64,
))
    requires
        pos.wf(),
        pos.is_ongoing(),
        dice.wf(),
        forall|k: usize| values@.contains_key(k) ==> values@[k] <= VALUE_ONE,
    ensures
        r.0 == nply_spec(1, maxer, *pos, dice, values@, roll_table()).0,
        r.1 as int == nply_spec(1, maxer, *pos, dice, values@, roll_table()).1,
        r.1 <= VALUE_ONE,
        r.0.wf(),
        next_states(*pos, dice).contains(r.0),
{
    nply(1, maxer, pos, dice, values)
}

/// Value of a finished game for the side to move in it.
pub fn terminal_value(result: &GameResult) -> (r: u64)
    ensures
        r as int == result_value(*result),
{
    if result.is_win() {
        VALUE_ONE
    } else {
        0
    }
}

/// Whether a search of `depth` plies from `pos` with `dice` reads the value-function
/// output for board index `k`.
pub open spec fn reads(depth: int, pos: FState, dice: Roll, table: Seq<(Roll, u64)>, k: usize) -> bool
    decreases depth, 3int, 0int,
{
    let cands = next_states(pos, dice);
    reads_upto(depth, pos, cands, cands.len() as int, table, k)
}

/// Whether scoring one of the first `n` candidates reads the output for board index `k`.
pub open spec fn reads_upto(
    depth: int,
    pos: FState,
    cands: Seq<FState>,
    n: int,
    table: Seq<(Roll, u64)>,
    k: usize,
) -> bool
    decreases depth, 2int, n,
{
    if n <= 0 {
        false
    } else {
        reads_upto(depth, pos, cands, n - 1, table, k) || reads_cand(depth, pos, cands[n - 1], table, k)
    }
}

/// Whether scoring successor `p` of `pos` in a search of `depth` plies reads the output for
/// board index `k`.
pub open spec fn reads_cand(depth: int, pos: FState, p: FState, table: Seq<(Roll, u64)>, k: usize) -> bool
    decreases depth, 1int, 0int,
{
    if depth <= 1 {
        db_index(input_pips(pos, p)) as usize == k
    } else if p.state.state() is Ongoing {
        reads_dice(depth - 1, p, table.len() as int, table, k)
    } else {
        false
    }
}

/// Whether the searches from `p` for one of the first `n` rolls read the output for board
/// index `k`.
pub open spec fn reads_dice(depth: int, p: FState, n: int, table: Seq<(Roll, u64)>, k: usize) -> bool
    decreases depth + 1, 0int, n,
{
    if n <= 0 || depth < 1 {
        false
    } else {
        reads_dice(depth, p, n - 1, table, k) || reads(depth, p, table[n - 1].0, table, k)
    }
}

/// Some board of `s` has index `k`.
pub open spec fn covered(s: Seq<Board>, k: usize) -> bool {
    exists|m: int| 0 <= m < s.len() && db_index(#[trigger] s[m].pips@) as usize == k
}

proof fn lemma_covered_grows(s: Seq<Board>, t: Seq<Board>)
    requires
        s.len() <= t.len(),
        forall|m: int| 0 <= m < s.len() ==> t[m] == s[m],
    ensures
        forall|k: usize| covered(s, k) ==> covered(t, k),
{
    assert forall|k: usize| covered(s, k) implies covered(t, k) by {
        let m = choose|m: int| 0 <= m < s.len() && db_index(#[trigger] s[m].pips@) as usize == k;
        assert(t[m] == s[m]);
    }
}

/// Appends the boards whose outputs scoring successor `p` of `pos` reads.
fn collect_cand(
    depth: u8,
    pos: &FState,
    p: &FState,
    table: &Vec<(Roll, u64)>,
    out: &mut Vec<Board>,
)
    requires
        depth >= 1,
        pos.wf(),
        p.wf(),
        forall|i: int| 0 <= i < table@.len() ==> (#[trigger] table@[i]).0.wf(),
    ensures
        old(out)@.len() <= final(out)@.len(),
        forall|m: int| 0 <= m < old(out)@.len() ==> final(out)@[m] == old(out)@[m],
        forall|k: usize|
            reads_cand(depth as int, *pos, *p, table@, k) ==> covered(final(out)@, k),
    decreases depth, 0int,
{
    if depth <= 1 {
        let b: Board = if pos.turn {
            p.state
        } else {
            p.state.flip()
        };
        let ghost before = out@;
        out.push(b);
        assert forall|k: usize| reads_cand(depth as int, *pos, *p, table@, k) implies covered(
            out@,
            k,
        ) by {
            assert(out@[before.len() as int] == b);
        }
        return;
    }
    match p.game_state() {
        GameState::GameOver(_) => {},
        GameState::Ongoing => {
            let ghost start = out@;
            let mut j: usize = 0;
            while j < table.len()
                invariant
                    depth > 1,
                    p.wf(),
                    p.is_ongoing(),
                    forall|i: int| 0 <= i < table@.len() ==> (#[trigger] table@[i]).0.wf(),
                    0 <= j <= table@.len(),
                    start.len() <= out@.len(),
                    forall|m: int| 0 <= m < start.len() ==> out@[m] == start[m],
                    forall|k: usize|
                        reads_dice((depth - 1) as int, *p, j as int, table@, k) ==> covered(
                            out@,
                            k,
                        ),
                decreases table@.len() - j,
            {
                let ghost before = out@;
                collect(depth - 1, p, table[j].0, table, out);
                proof {
                    lemma_covered_grows(before, out@);
                }
                j = j + 1;
            }
        },
    }
}

/// Appends the boards whose outputs a search of `depth` plies from `pos` with `dice` reads.
fn collect(depth: u8, pos: &FState, dice: Roll, table: &Vec<(Roll, u64)>, out: &mut Vec<Board>)
    requires
        depth >= 1,
        pos.wf(),
        pos.is_ongoing(),
        dice.wf(),
        forall|i: int| 0 <= i < table@.len() ==> (#[trigger] table@[i]).0.wf(),
    ensures
        old(out)@.len() <= final(out)@.len(),
        forall|m: int| 0 <= m < old(out)@.len() ==> final(out)@[m] == old(out)@[m],
        forall|k: usize| reads(depth as int, *pos, dice, table@, k) ==> covered(final(out)@, k),
    decreases depth, 1int,
{
    let cands = pos.possible_positions(dice);
    let ghost start = out@;
    let mut i: usize = 0;
    while i < cands.len()
        invariant
            depth >= 1,
            pos.wf(),
            cands@ == next_states(*pos, dice),
            forall|m: int| 0 <= m < cands@.len() ==> (#[trigger] cands@[m]).wf(),
            forall|t: int| 0 <= t < table@.len() ==> (#[trigger] table@[t]).0.wf(),
            0 <= i <= cands@.len(),
            start.len() <= out@.len(),
            forall|m: int| 0 <= m < start.len() ==> out@[m] == start[m],
            forall|k: usize|
                reads_upto(depth as int, *pos, cands@, i as int, table@, k) ==> covered(out@, k),
        decreases cands@.len() - i,
    {
        let ghost before = out@;
        collect_cand(depth, pos, &cands[i], table, out);
        proof {
            lemma_covered_grows(before, out@);
        }
        i = i + 1;
    }
}

/// The boards, as the value function scores them, whose outputs a search of `depth` plies
/// from `pos` with `dice` reads: every board index the search looks up is among them.
pub fn leaf_boards(depth: u8, pos: &FState, dice: Roll) -> (r: Vec<Board>)
    requires
        depth >= 1,
        pos.wf(),
        pos.is_ongoing(),
        dice.wf(),
    ensures
        forall|k: usize| reads(depth as int, *pos, dice, roll_table(), k) ==> covered(r@, k),
{
    let table = all_21();
    let mut out: Vec<Board> = Vec::new();
    collect(depth, pos, dice, &table, &mut out);
    out
}

} // verus!
