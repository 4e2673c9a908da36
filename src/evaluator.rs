use vstd::prelude::*;

use crate::dice::Roll;
use crate::fstate::{next_states, FState};

verus! {

/// Picks a move: one successor of a position for a roll.
pub trait Evaluator {
    /// Whether `r` is a move this evaluator may play from `pos` with `dice`. By default
    /// any legal successor; an evaluator that decides its move states which one.
    open spec fn chooses(&self, pos: FState, dice: Roll, r: FState) -> bool {
        next_states(pos, dice).contains(r)
    }

    /// The successor of `pos` with `dice` that this evaluator plays.
    fn best_position(&self, pos: &FState, dice: Roll) -> (r: FState)
        requires
            pos.wf(),
            pos.is_ongoing(),
            dice.wf(),
        ensures
            next_states(*pos, dice).contains(r),
            self.chooses(*pos, dice, r),
            r.wf(),
    ;
}

/// Plays a uniformly random legal move.
#[derive(Clone, Copy, Debug)]
pub struct RandomEvaluator;

impl RandomEvaluator {
    pub fn new() -> (r: RandomEvaluator) {
        RandomEvaluator
    }

    /// The legal successor at `index`, in the rules engine's order, if there is one: the
    /// move played when `index` is the number drawn.
    pub fn successor_at(&self, pos: &FState, dice: Roll, index: usize) -> (r: Option<FState>)
        requires
            pos.wf(),
            pos.is_ongoing(),
            dice.wf(),
        ensures
            r == if index < next_states(*pos, dice).len() {
                Some(next_states(*pos, dice)[index as int])
            } else {
                None
            },
            r is Some ==> r->0.wf(),
    {
        let possible_positions = pos.possible_positions(dice);
        if index < possible_positions.len() {
            Some(possible_positions[index])
        } else {
            None
        }
    }
}

impl Evaluator for RandomEvaluator {
    fn best_position(&self, pos: &FState, dice: Roll) -> (r: FState) {
        let n = pos.possible_positions(dice).len();
        let index = random_index(n);
        let r = self.successor_at(pos, dice, index).unwrap();
        assert(next_states(*pos, dice)[index as int] == r);
        r
    }
}

/// Relies on fastrand's `usize`: a number in the given range, drawn from the
/// thread's generator; the range must not be empty.
#[verifier::external_body]
fn random_index(n: usize) -> (r: usize)
    requires
        n > 0,
    ensures
        r < n,
{
    fastrand::usize(..n)
}

} // verus!
