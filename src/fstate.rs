use vstd::prelude::*;

use crate::board::{successors, Board};
use crate::dice::Roll;
use crate::outcome::GameState;

verus! {

/// A board together with whose turn it is in terms of the two players of the game.
///
/// The rules engine always shows the board from the mover's side; `turn` is `true` when
/// the mover is the player who moved first, so a result can be given to the right player.
#[derive(Clone, Copy, Debug, PartialEq)]
pub struct FState {
    pub state: Board,
    pub turn: bool,
}

/// The states reached from `s` with `dice`: each legal successor board, with the turn
/// passed to the other player.
pub open spec fn next_states(s: FState, dice: Roll) -> Seq<FState> {
    successors(s.state.pips@, dice).map_values(|b: Board| FState { state: b, turn: !s.turn })
}

impl FState {
    pub open spec fn wf(&self) -> bool {
        self.state.wf()
    }

    pub open spec fn is_ongoing(&self) -> bool {
        self.state.is_ongoing()
    }

    /// The board from the first player's side.
    pub open spec fn resolved_pips(&self) -> Seq<i8> {
        if self.turn {
            self.state.pips@
        } else {
            crate::board::flipped(self.state.pips@)
        }
    }

    /// The starting position, the first player to move.
    pub fn new() -> (r: FState)
        ensures
            r.wf(),
            r.state.pips@ == crate::board::start_pips(),
            r.turn,
    {
        FState { state: Board::start(), turn: true }
    }

    /// A state for `position`, the first player to move.
    pub fn from_position(position: Board) -> (r: FState)
        ensures
            r.state == position,
            r.turn,
    {
        FState { state: position, turn: true }
    }

    /// The board as the rules engine shows it, from the mover's side.
    pub fn position(&self) -> (r: Board)
        ensures
            r == self.state,
    {
        self.state
    }

    /// The same position seen by the other player.
    pub fn flip(&self) -> (r: FState)
        requires
            self.wf(),
        ensures
            r.wf(),
            r.state.pips@ == crate::board::flipped(self.state.pips@),
            r.turn == !self.turn,
    {
        FState { state: self.state.flip(), turn: !self.turn }
    }

    /// How the game stands for the mover, whoever that is.
    pub fn game_state(&self) -> (r: GameState)
        requires
            self.wf(),
        ensures
            r == self.state.state(),
    {
        self.state.game_state()
    }

    /// Each legal successor, with the turn passed on.
    pub fn possible_positions(&self, dice: Roll) -> (r: Vec<FState>)
        requires
            self.wf(),
            self.is_ongoing(),
            dice.wf(),
        ensures
            r@ == next_states(*self, dice),
            r@.len() > 0,
            forall|i: int| 0 <= i < r@.len() ==> (#[trigger] r@[i]).wf(),
    {
        let boards = self.state.possible_positions(dice);
        let mut r: Vec<FState> = Vec::new();
        let mut i: usize = 0;
        while i < boards.len()
            invariant
                0 <= i <= boards@.len(),
                boards@ == successors(self.state.pips@, dice),
                forall|k: int| 0 <= k < boards@.len() ==> (#[trigger] boards@[k]).wf(),
                r@ == boards@.subrange(0, i as int).map_values(
                    |b: Board| FState { state: b, turn: !self.turn },
                ),
            decreases boards@.len() - i,
        {
            r.push(FState { state: boards[i], turn: !self.turn });
            i = i + 1;
            assert(r@ =~= boards@.subrange(0, i as int).map_values(
                |b: Board| FState { state: b, turn: !self.turn },
            ));
        }
        assert(boards@.subrange(0, boards@.len() as int) =~= boards@);
        r
    }

    /// How the game stands for the first player.
    pub fn f_game_state(&self) -> (r: GameState)
        requires
            self.wf(),
        ensures
            r == crate::board::state_of(self.resolved_pips()),
    {
        self.f_state().game_state()
    }

    /// The board from the first player's side.
    pub fn f_state(&self) -> (r: Board)
        requires
            self.wf(),
        ensures
            r.wf(),
            r.pips@ == self.resolved_pips(),
    {
        if self.turn {
            self.state
        } else {
            self.state.flip()
        }
    }

    pub fn x_bar(&self) -> (r: u8)
        requires
            self.wf(),
        ensures
            r as int == self.state.pips@[25],
    {
        self.state.x_bar()
    }

    pub fn o_bar(&self) -> (r: u8)
        requires
            self.wf(),
        ensures
            r as int == -self.state.pips@[0],
    {
        self.state.o_bar()
    }

    pub fn x_off(&self) -> (r: u8)
        requires
            self.wf(),
        ensures
            r as int == self.state.x_borne_off(),
    {
        self.state.x_off()
    }

    pub fn o_off(&self) -> (r: u8)
        requires
            self.wf(),
        ensures
            r as int == self.state.o_borne_off(),
    {
        self.state.o_off()
    }

    pub fn pip(&self, pip: usize) -> (r: i8)
        requires
            pip < 26,
        ensures
            r == self.state.pips@[pip as int],
    {
        self.state.pip(pip)
    }

    /// Dense index of the board as the rules engine shows it.
    pub fn dbhash(&self) -> (r: usize)
        requires
            self.wf(),
        ensures
            r as nat == crate::board::db_index(self.state.pips@),
    {
        self.state.dbhash()
    }
}

} // verus!
