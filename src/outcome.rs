use vstd::prelude::*;

verus! {

/// The six mutually exclusive ways a game can end, seen from one player.
#[derive(Clone, Copy, Debug, PartialEq, Eq, Structural)]
pub enum GameResult {
    WinNormal,
    WinGammon,
    WinBackgammon,
    LoseNormal,
    LoseGammon,
    LoseBackgammon,
}

/// Whether a game goes on, or how it ended for the side to move.
#[derive(Clone, Copy, Debug, PartialEq, Eq, Structural)]
pub enum GameState {
    Ongoing,
    GameOver(GameResult),
}

/// Position of a result in a six-slot tally: wins by severity, then losses by severity.
pub open spec fn result_index(r: GameResult) -> int {
    match r {
        GameResult::WinNormal => 0,
        GameResult::WinGammon => 1,
        GameResult::WinBackgammon => 2,
        GameResult::LoseNormal => 3,
        GameResult::LoseGammon => 4,
        GameResult::LoseBackgammon => 5,
    }
}

/// The same result seen from the other player.
pub open spec fn reversed(r: GameResult) -> GameResult {
    match r {
        GameResult::WinNormal => GameResult::LoseNormal,
        GameResult::WinGammon => GameResult::LoseGammon,
        GameResult::WinBackgammon => GameResult::LoseBackgammon,
        GameResult::LoseNormal => GameResult::WinNormal,
        GameResult::LoseGammon => GameResult::WinGammon,
        GameResult::LoseBackgammon => GameResult::WinBackgammon,
    }
}

pub open spec fn is_win_result(r: GameResult) -> bool {
    result_index(r) < 3
}

impl GameResult {
    pub fn index(&self) -> (r: usize)
        ensures
            r as int == result_index(*self),
            r < 6,
    {
        match self {
            GameResult::WinNormal => 0,
            GameResult::WinGammon => 1,
            GameResult::WinBackgammon => 2,
            GameResult::LoseNormal => 3,
            GameResult::LoseGammon => 4,
            GameResult::LoseBackgammon => 5,
        }
    }

    pub fn reverse(&self) -> (r: GameResult)
        ensures
            r == reversed(*self),
    {
        match self {
            GameResult::WinNormal => GameResult::LoseNormal,
            GameResult::WinGammon => GameResult::LoseGammon,
            GameResult::WinBackgammon => GameResult::LoseBackgammon,
            GameResult::LoseNormal => GameResult::WinNormal,
            GameResult::LoseGammon => GameResult::WinGammon,
            GameResult::LoseBackgammon => GameResult::WinBackgammon,
        }
    }

    pub fn is_win(&self) -> (r: bool)
        ensures
            r == is_win_result(*self),
    {
        match self {
            GameResult::WinNormal | GameResult::WinGammon | GameResult::WinBackgammon => true,
            _ => false,
        }
    }
}

} // verus!
