use vstd::prelude::*;

use crate::dice::Roll;
use crate::outcome::{GameResult, GameState};

verus! {

/// Checkers each side plays with (hypergammon).
pub const NUM_CHECKERS: u8 = 3;

/// Index of the bar of the side to move.
pub const X_BAR: usize = 25;

/// Index of the opponent's bar.
pub const O_BAR: usize = 0;

/// A board seen by the side to move: positive counts are its checkers, negative counts
/// the opponent's. Index 25 is the mover's bar, index 0 the opponent's, 1 to 24 the
/// points; the mover bears off past point 1.
#[derive(Clone, Copy, Debug)]
pub struct Board {
    pub pips: [i8; 26],
}

impl PartialEq for Board {
    fn eq(&self, other: &Board) -> (r: bool)
        ensures
            r == (self.pips@ == other.pips@),
    {
        let mut i: usize = 0;
        while i < 26
            invariant
                0 <= i <= 26,
                forall|j: int| 0 <= j < i ==> self.pips@[j] == other.pips@[j],
            decreases 26 - i,
        {
            if self.pips[i] != other.pips[i] {
                return false;
            }
            i = i + 1;
        }
        assert(self.pips@ =~= other.pips@);
        true
    }
}

impl vstd::std_specs::cmp::PartialEqSpecImpl for Board {
    open spec fn obeys_eq_spec() -> bool {
        true
    }

    open spec fn eq_spec(&self, other: &Board) -> bool {
        self.pips@ == other.pips@
    }
}

/// Checkers of the mover among the first `n` slots.
pub open spec fn x_in(s: Seq<i8>, n: int) -> int
    decreases n,
{
    if n <= 0 {
        0
    } else {
        x_in(s, n - 1) + if s[n - 1] > 0 {
            s[n - 1] as int
        } else {
            0
        }
    }
}

/// Checkers of the opponent among the first `n` slots.
pub open spec fn o_in(s: Seq<i8>, n: int) -> int
    decreases n,
{
    if n <= 0 {
        0
    } else {
        o_in(s, n - 1) + if s[n - 1] < 0 {
            -s[n - 1]
        } else {
            0
        }
    }
}

/// The same board seen by the other side.
pub open spec fn flipped(s: Seq<i8>) -> Seq<i8> {
    Seq::new(26, |i: int| (-s[25 - i]) as i8)
}

/// The starting position of hypergammon: three checkers each, on the opponent's
/// three deepest points.
pub open spec fn start_pips() -> Seq<i8> {
    Seq::new(
        26,
        |i: int|
            if 1 <= i <= 3 {
                -1i8
            } else if 22 <= i <= 24 {
                1i8
            } else {
                0i8
            },
    )
}

/// How the game stands for the mover: over when either side has borne off all its
/// checkers; a gammon if the loser bore off none, a backgammon if the loser also still
/// has a checker on the bar or in the winner's home board.
pub open spec fn state_of(s: Seq<i8>) -> GameState {
    let x_off = NUM_CHECKERS - x_in(s, 26);
    let o_off = NUM_CHECKERS - o_in(s, 26);
    if x_off == 3 {
        if o_off > 0 {
            GameState::GameOver(GameResult::WinNormal)
        } else if exists|i: int| 0 <= i < 7 && s[i] < 0 {
            GameState::GameOver(GameResult::WinBackgammon)
        } else {
            GameState::GameOver(GameResult::WinGammon)
        }
    } else if o_off == 3 {
        if x_off > 0 {
            GameState::GameOver(GameResult::LoseNormal)
        } else if exists|i: int| 19 <= i < 26 && s[i] > 0 {
            GameState::GameOver(GameResult::LoseBackgammon)
        } else {
            GameState::GameOver(GameResult::LoseGammon)
        }
    } else {
        GameState::Ongoing
    }
}

impl Board {
    /// Mover's checkers already borne off.
    pub open spec fn x_borne_off(&self) -> int {
        NUM_CHECKERS - x_in(self.pips@, 26)
    }

    /// Opponent's checkers already borne off.
    pub open spec fn o_borne_off(&self) -> int {
        NUM_CHECKERS - o_in(self.pips@, 26)
    }

    /// A board the rules engine accepts: each side has at most its checkers on the board,
    /// the bars hold only their own side's checkers, and not both sides are done.
    pub open spec fn wf(&self) -> bool {
        &&& forall|i: int| 0 <= i < 26 ==> -3 <= #[trigger] self.pips@[i] <= 3
        &&& self.pips@[25] >= 0
        &&& self.pips@[0] <= 0
        &&& 0 <= self.x_borne_off() <= 3
        &&& 0 <= self.o_borne_off() <= 3
        &&& (self.x_borne_off() < 3 || self.o_borne_off() < 3)
    }

    /// How the game stands for the mover.
    pub open spec fn state(&self) -> GameState {
        state_of(self.pips@)
    }

    pub open spec fn is_ongoing(&self) -> bool {
        self.state() is Ongoing
    }

    /// The starting position.
    pub fn start() -> (r: Board)
        ensures
            r.pips@ == start_pips(),
            r.wf(),
    {
        let r = start_board();
        proof {
            reveal_with_fuel(x_in, 27);
            reveal_with_fuel(o_in, 27);
        }
        r
    }

    /// The same board seen by the opponent.
    pub fn flip(&self) -> (r: Board)
        requires
            self.wf(),
        ensures
            r.pips@ == flipped(self.pips@),
            r.wf(),
            r.x_borne_off() == self.o_borne_off(),
            r.o_borne_off() == self.x_borne_off(),
    {
        let r = flip_board(self);
        proof {
            lemma_flip_counts(self.pips@, r.pips@, 26);
            lemma_flip_counts(r.pips@, self.pips@, 26);
        }
        r
    }

    /// How the game stands for the mover.
    pub fn game_state(&self) -> (r: GameState)
        requires
            self.wf(),
        ensures
            r == self.state(),
    {
        board_game_state(self)
    }

    /// The boards the mover can reach with `dice`, each seen by the opponent, who moves
    /// next.
    pub fn possible_positions(&self, dice: Roll) -> (r: Vec<Board>)
        requires
            self.wf(),
            self.is_ongoing(),
            dice.wf(),
        ensures
            r@ == successors(self.pips@, dice),
            r@.len() > 0,
            forall|i: int| 0 <= i < r@.len() ==> (#[trigger] r@[i]).wf(),
    {
        legal_successors(self, dice)
    }

    /// Checkers of the mover on its bar.
    pub fn x_bar(&self) -> (r: u8)
        requires
            self.wf(),
        ensures
            r as int == self.pips@[25],
    {
        self.pips[X_BAR] as u8
    }

    /// Checkers of the opponent on its bar.
    pub fn o_bar(&self) -> (r: u8)
        requires
            self.wf(),
        ensures
            r as int == -self.pips@[0],
    {
        (-self.pips[O_BAR]) as u8
    }

    /// The count at slot `pip`: positive for the mover's checkers, negative for the
    /// opponent's.
    pub fn pip(&self, pip: usize) -> (r: i8)
        requires
            pip < 26,
        ensures
            r == self.pips@[pip as int],
    {
        self.pips[pip]
    }

    /// Mover's checkers already borne off.
    pub fn x_off(&self) -> (r: u8)
        requires
            self.wf(),
        ensures
            r as int == self.x_borne_off(),
    {
        let mut on: u8 = 0;
        let mut i: usize = 0;
        while i < 26
            invariant
                self.wf(),
                0 <= i <= 26,
                on as int == x_in(self.pips@, i as int),
                on <= 3,
            decreases 26 - i,
        {
            proof {
                lemma_counts_grow(self.pips@, i as int + 1);
            }
            if self.pips[i] > 0 {
                on = on + self.pips[i] as u8;
            }
            i = i + 1;
        }
        NUM_CHECKERS - on
    }

    /// Opponent's checkers already borne off.
    pub fn o_off(&self) -> (r: u8)
        requires
            self.wf(),
        ensures
            r as int == self.o_borne_off(),
    {
        let mut on: u8 = 0;
        let mut i: usize = 0;
        while i < 26
            invariant
                self.wf(),
                0 <= i <= 26,
                on as int == o_in(self.pips@, i as int),
                on <= 3,
            decreases 26 - i,
        {
            proof {
                lemma_counts_grow(self.pips@, i as int + 1);
            }
            if self.pips[i] < 0 {
                on = on + (-self.pips[i]) as u8;
            }
            i = i + 1;
        }
        NUM_CHECKERS - on
    }

    /// Dense index of the board in the table of all boards.
    pub fn dbhash(&self) -> (r: usize)
        requires
            self.wf(),
        ensures
            r as nat == db_index(self.pips@),
    {
        board_dbhash(self)
    }
}

/// The counts over a prefix never exceed the counts over the whole board.
proof fn lemma_counts_grow(s: Seq<i8>, n: int)
    requires
        0 <= n <= 26,
    ensures
        0 <= x_in(s, n) <= x_in(s, 26),
        0 <= o_in(s, n) <= o_in(s, 26),
    decreases 26 - n,
{
    if n < 26 {
        lemma_counts_grow(s, n + 1);
    }
    lemma_counts_nonneg(s, n);
}

proof fn lemma_counts_nonneg(s: Seq<i8>, n: int)
    ensures
        0 <= x_in(s, n),
        0 <= o_in(s, n),
    decreases n,
{
    if n > 0 {
        lemma_counts_nonneg(s, n - 1);
    }
}

/// Counting the mover's checkers on a flipped board counts the opponent's on the unflipped one.
proof fn lemma_flip_counts(s: Seq<i8>, t: Seq<i8>, n: int)
    requires
        s.len() == 26,
        t.len() == 26,
        forall|i: int| 0 <= i < 26 ==> -3 <= #[trigger] s[i] <= 3,
        forall|i: int| 0 <= i < 26 ==> #[trigger] t[i] == -s[25 - i],
        0 <= n <= 26,
    ensures
        x_in(t, n) == o_in(s, 26) - o_in(s, 26 - n),
        o_in(t, n) == x_in(s, 26) - x_in(s, 26 - n),
    decreases n,
{
    if n > 0 {
        lemma_flip_counts(s, t, n - 1);
        assert(t[n - 1] == -s[26 - n]);
    }
}

/// The boards reachable from a board with a roll, in the rules engine's order, each
/// from the point of view of the side that moves next.
pub uninterp spec fn successors(pips: Seq<i8>, dice: Roll) -> Seq<Board>;

/// The dense combinatorial index of a board.
pub uninterp spec fn db_index(pips: Seq<i8>) -> nat;

/// Relies on bkgm's `HYPERGAMMON` starting position.
#[verifier::external_body]
fn start_board() -> (r: Board)
    ensures
        r.pips@ == start_pips(),
{
    Board { pips: <[i8; 26]>::from(bkgm::HYPERGAMMON) }
}

/// Relies on `State::flip` of bkgm's `Position`: it mirrors the points and negates the
/// counts.
#[verifier::external_body]
fn flip_board(b: &Board) -> (r: Board)
    requires
        b.wf(),
    ensures
        r.pips@ == flipped(b.pips@),
{
    let p = bkgm::Position::<3>::try_from(b.pips).unwrap();
    Board { pips: <[i8; 26]>::from(bkgm::State::flip(&p)) }
}

/// Relies on `State::game_state` of bkgm's `Position`, whose rules `Board::state` spells
/// out.
#[verifier::external_body]
fn board_game_state(b: &Board) -> (r: GameState)
    requires
        b.wf(),
    ensures
        r == b.state(),
{
    let p = bkgm::Position::<3>::try_from(b.pips).unwrap();
    match bkgm::State::game_state(&p) {
        bkgm::GameState::Ongoing => GameState::Ongoing,
        bkgm::GameState::GameOver(bkgm::GameResult::WinNormal) => GameState::GameOver(GameResult::WinNormal),
        bkgm::GameState::GameOver(bkgm::GameResult::WinGammon) => GameState::GameOver(GameResult::WinGammon),
        bkgm::GameState::GameOver(bkgm::GameResult::WinBackgammon) => GameState::GameOver(GameResult::WinBackgammon),
        bkgm::GameState::GameOver(bkgm::GameResult::LoseNormal) => GameState::GameOver(GameResult::LoseNormal),
        bkgm::GameState::GameOver(bkgm::GameResult::LoseGammon) => GameState::GameOver(GameResult::LoseGammon),
        bkgm::GameState::GameOver(bkgm::GameResult::LoseBackgammon) => GameState::GameOver(GameResult::LoseBackgammon),
    }
}

/// Relies on bkgm's `legal_positions_with` under the classic rules: every legal
/// successor (the unchanged board when no checker can move), flipped to the opponent's
/// view; moving checkers keeps each side's count.
#[verifier::external_body]
fn legal_successors(b: &Board, dice: Roll) -> (r: Vec<Board>)
    requires
        b.wf(),
        b.is_ongoing(),
        dice.wf(),
    ensures
        r@ == successors(b.pips@, dice),
        r@.len() > 0,
        forall|i: int| 0 <= i < r@.len() ==> (#[trigger] r@[i]).wf(),
{
    let p = bkgm::Position::<3>::try_from(b.pips).unwrap();
    let d = bkgm::Dice::new(dice.small as usize, dice.big as usize);
    bkgm::legal_positions_with::<bkgm::ClassicRules, 3>(p, &d)
        .into_iter()
        .map(|q| Board { pips: <[i8; 26]>::from(q) })
        .collect()
}

/// Relies on `State::dbhash` of bkgm's `Position`: a function of the board alone.
#[verifier::external_body]
fn board_dbhash(b: &Board) -> (r: usize)
    requires
        b.wf(),
    ensures
        r as nat == db_index(b.pips@),
{
    let p = bkgm::Position::<3>::try_from(b.pips).unwrap();
    bkgm::State::dbhash(&p)
}

} // verus!
