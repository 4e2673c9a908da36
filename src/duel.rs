use vstd::prelude::*;

use crate::dice::Roll;
use crate::evaluator::Evaluator;
use crate::fstate::{next_states, FState};
use crate::outcome::{result_index, reversed, GameResult, GameState};
use crate::probabilities::{total6, ResultCounter};

verus! {

/// Two evaluators that play paired games against each other.
pub struct Duel<T: Evaluator, U: Evaluator> {
    pub evaluator1: T,
    pub evaluator2: U,
}

/// Two games played side by side with the same dice, the evaluators swapping who opens.
/// Results are counted from the first evaluator's side.
pub struct DuelGames {
    pub pos1: FState,
    pub pos2: FState,
    pub iteration: u64,
    pub pos1_finished: bool,
    pub pos2_finished: bool,
    pub counter: ResultCounter,
}

/// Number of finished games among two.
pub open spec fn finished_count(a: bool, b: bool) -> nat {
    (if a {
        1nat
    } else {
        0nat
    }) + (if b {
        1nat
    } else {
        0nat
    })
}

/// A tally with one more game counted for `o`, if there is one.
pub open spec fn credited(c: Seq<nat>, o: Option<GameResult>) -> Seq<nat> {
    match o {
        Some(r) => c.update(result_index(r), c[result_index(r)] + 1),
        None => c,
    }
}

/// The result a game adds when it is seen at a ply: its result the first time it is seen
/// over (reversed when the second evaluator is to move in it), nothing otherwise.
pub open spec fn game_outcome(pos: FState, finished: bool, reverse: bool) -> Option<GameResult> {
    match pos.state.state() {
        GameState::GameOver(r) => if finished {
            None
        } else if reverse {
            Some(reversed(r))
        } else {
            Some(r)
        },
        GameState::Ongoing => None,
    }
}

/// One ply of one game: a move by `e` if the game goes on, else the result to count, if
/// not counted yet.
fn step_game<E: Evaluator>(e: &E, pos: &FState, finished: bool, dice: Roll, reverse: bool) -> (r: (
    FState,
    bool,
    Option<GameResult>,
))
    requires
        pos.wf(),
        dice.wf(),
    ensures
        r.0.wf(),
        r.2 == game_outcome(*pos, finished, reverse),
        pos.is_ongoing() ==> next_states(*pos, dice).contains(r.0) && r.1 == finished
            && e.chooses(*pos, dice, r.0),
        !pos.is_ongoing() ==> r.0 == *pos && r.1,
{
    match pos.game_state() {
        GameState::Ongoing => (e.best_position(pos, dice), finished, None),
        GameState::GameOver(result) => {
            if finished {
                (*pos, true, None)
            } else if reverse {
                (*pos, true, Some(result.reverse()))
            } else {
                (*pos, true, Some(result))
            }
        },
    }
}

/// Counts `o` in the tally, if there is one.
fn credit(counter: &mut ResultCounter, o: Option<GameResult>)
    requires
        old(counter)@.len() == 6,
        o is Some ==> total6(old(counter)@) <= 1,
    ensures
        final(counter)@ == credited(old(counter)@, o),
        final(counter)@.len() == 6,
        total6(final(counter)@) == total6(old(counter)@) + if o is Some {
            1nat
        } else {
            0nat
        },
{
    proof {
        counter.lemma_len();
    }
    match o {
        Some(r) => counter.add(r),
        None => {},
    }
    proof {
        counter.lemma_len();
    }
}

impl DuelGames {
    /// Both boards are valid, and the tally holds one result per finished game.
    pub open spec fn wf(&self) -> bool {
        &&& self.pos1.wf()
        &&& self.pos2.wf()
        &&& self.counter@.len() == 6
        &&& total6(self.counter@) == finished_count(self.pos1_finished, self.pos2_finished)
    }

    pub open spec fn is_over(&self) -> bool {
        self.pos1_finished && self.pos2_finished
    }

    /// Whether the first evaluator moves in the first game at this ply.
    pub open spec fn first_moves_first(&self) -> bool {
        self.iteration % 2 == 0
    }

    /// The result the first game adds at this ply, for the first evaluator.
    pub open spec fn outcome1(&self) -> Option<GameResult> {
        game_outcome(self.pos1, self.pos1_finished, !self.first_moves_first())
    }

    /// The result the second game adds at this ply, for the first evaluator.
    pub open spec fn outcome2(&self) -> Option<GameResult> {
        game_outcome(self.pos2, self.pos2_finished, self.first_moves_first())
    }

    /// Both games are over.
    pub fn is_finished(&self) -> (r: bool)
        ensures
            r == self.is_over(),
    {
        self.pos1_finished && self.pos2_finished
    }

    /// The tally of the two games.
    pub fn finish(self) -> (r: ResultCounter)
        requires
            self.wf(),
            self.is_over(),
        ensures
            r@ == self.counter@,
            total6(r@) == 2,
    {
        self.counter
    }
}

impl<T: Evaluator, U: Evaluator> Duel<T, U> {
    pub fn new(evaluator1: T, evaluator2: U) -> (r: Duel<T, U>)
        ensures
            r.evaluator1 == evaluator1,
            r.evaluator2 == evaluator2,
    {
        Duel { evaluator1, evaluator2 }
    }

    /// Two fresh games, nothing counted yet.
    pub fn start(&self) -> (r: DuelGames)
        ensures
            r.wf(),
            r.pos1.state.pips@ == crate::board::start_pips(),
            r.pos2.state.pips@ == crate::board::start_pips(),
            r.pos1.turn && r.pos2.turn,
            !r.pos1_finished && !r.pos2_finished,
            r.iteration == 1,
            r.counter@ == seq![0nat, 0nat, 0nat, 0nat, 0nat, 0nat],
    {
        let counter = ResultCounter::default();
        proof {
            counter.lemma_len();
        }
        DuelGames {
            pos1: FState::new(),
            pos2: FState::new(),
            iteration: 1,
            pos1_finished: false,
            pos2_finished: false,
            counter,
        }
    }

    /// One ply of both games with the shared `dice`. A game still going gets a move from
    /// the evaluator whose turn it is; a game that has just ended is counted once.
    pub fn play_ply(&self, games: &mut DuelGames, dice: Roll)
        requires
            old(games).wf(),
            dice.wf(),
        ensures
            final(games).wf(),
            final(games).counter@ == credited(
                credited(old(games).counter@, old(games).outcome1()),
                old(games).outcome2(),
            ),
            final(games).iteration == (if old(games).iteration == u64::MAX {
                0
            } else {
                old(games).iteration + 1
            }),
            old(games).pos1.is_ongoing() ==> next_states(old(games).pos1, dice).contains(
                final(games).pos1,
            ) && final(games).pos1_finished == old(games).pos1_finished,
            !old(games).pos1.is_ongoing() ==> final(games).pos1 == old(games).pos1
                && final(games).pos1_finished,
            old(games).pos2.is_ongoing() ==> next_states(old(games).pos2, dice).contains(
                final(games).pos2,
            ) && final(games).pos2_finished == old(games).pos2_finished,
            !old(games).pos2.is_ongoing() ==> final(games).pos2 == old(games).pos2
                && final(games).pos2_finished,
            old(games).pos1.is_ongoing() ==> if old(games).first_moves_first() {
                self.evaluator1.chooses(old(games).pos1, dice, final(games).pos1)
            } else {
                self.evaluator2.chooses(old(games).pos1, dice, final(games).pos1)
            },
            old(games).pos2.is_ongoing() ==> if old(games).first_moves_first() {
                self.evaluator2.chooses(old(games).pos2, dice, final(games).pos2)
            } else {
                self.evaluator1.chooses(old(games).pos2, dice, final(games).pos2)
            },
    {
        let first = games.iteration % 2 == 0;
        let (p1, f1, o1) = if first {
            step_game(&self.evaluator1, &games.pos1, games.pos1_finished, dice, false)
        } else {
            step_game(&self.evaluator2, &games.pos1, games.pos1_finished, dice, true)
        };
        let (p2, f2, o2) = if first {
            step_game(&self.evaluator2, &games.pos2, games.pos2_finished, dice, true)
        } else {
            step_game(&self.evaluator1, &games.pos2, games.pos2_finished, dice, false)
        };
        credit(&mut games.counter, o1);
        credit(&mut games.counter, o2);
        games.pos1 = p1;
        games.pos1_finished = f1;
        games.pos2 = p2;
        games.pos2_finished = f2;
        games.iteration = games.iteration.wrapping_add(1);
    }
}

/// Every paired duel adds exactly two results to the tally: from the fresh games, each
/// ply keeps one result per finished game, and a duel ends when both games have ended.
pub proof fn lemma_duel_adds_two(games: DuelGames)
    requires
        games.wf(),
        games.is_over(),
    ensures
        total6(games.counter@) == 2,
{
}

/// The same result seen from the other side, if there is one.
pub open spec fn mirrored(o: Option<GameResult>) -> Option<GameResult> {
    match o {
        Some(r) => Some(reversed(r)),
        None => None,
    }
}

/// When the paired games stand at the same position, as they do throughout when one
/// deterministic evaluator plays both sides, the results they add at a ply are mirror
/// images: one game's result for the first evaluator is the other's reversed.
pub proof fn lemma_equal_games_mirror(games: DuelGames)
    requires
        games.pos1 == games.pos2,
        games.pos1_finished == games.pos2_finished,
    ensures
        games.outcome1() == mirrored(games.outcome2()),
{
    match games.pos1.state.state() {
        GameState::GameOver(r) => {
            assert(reversed(reversed(r)) == r) by {
                match r {
                    GameResult::WinNormal => {},
                    GameResult::WinGammon => {},
                    GameResult::WinBackgammon => {},
                    GameResult::LoseNormal => {},
                    GameResult::LoseGammon => {},
                    GameResult::LoseBackgammon => {},
                }
            }
        },
        GameState::Ongoing => {},
    }
}

} // verus!
