use std::collections::HashMap;

use td_gammon::board::Board;
use td_gammon::dice::{all_21, Roll};
use td_gammon::fstate::FState;
use td_gammon::outcome::{GameResult, GameState};
use td_gammon::search::{finder, leaf_boards, nply, terminal_value, VALUE_ONE};

/// Value-function stand-in: a fixed, varied score per board.
fn score(b: &Board) -> u64 {
    (b.dbhash() as u64 * 7919) % (VALUE_ONE + 1)
}

fn table_for(boards: &[Board]) -> HashMap<usize, u64> {
    boards.iter().map(|b| (b.dbhash(), score(b))).collect()
}

fn input(pos: &FState, p: &FState) -> Board {
    if pos.turn {
        p.state
    } else {
        p.state.flip()
    }
}

/// Flat ranking of the successors by the stand-in scores.
fn flat_choice(maxer: bool, pos: &FState, dice: Roll) -> (FState, u64) {
    let cands = pos.possible_positions(dice);
    let pick_min = pos.turn == maxer;
    let mut best = (cands[0], score(&input(pos, &cands[0])));
    for p in &cands[1..] {
        let v = score(&input(pos, p));
        if (pick_min && v < best.1) || (!pick_min && v >= best.1) {
            best = (*p, v);
        }
    }
    best
}

#[test]
fn depth_one_is_flat_ranking() {
    let start = FState::new();
    let second = start.possible_positions(Roll::new(4, 1))[2];
    for pos in [start, second] {
        for roll in [Roll::new(3, 1), Roll::new(6, 6), Roll::new(5, 2)] {
            let leaves = leaf_boards(1, &pos, roll);
            assert_eq!(leaves.len(), pos.possible_positions(roll).len());
            let values = table_for(&leaves);
            for maxer in [true, false] {
                let expected = flat_choice(maxer, &pos, roll);
                assert_eq!(finder(maxer, &pos, roll, &values), expected);
                assert_eq!(nply(1, maxer, &pos, roll, &values), expected);
            }
        }
    }
}

#[test]
fn polarity_picks_opposite_extremes() {
    let pos = FState::new();
    let roll = Roll::new(2, 1);
    let values = table_for(&leaf_boards(1, &pos, roll));
    let (_, low) = finder(true, &pos, roll, &values);
    let (_, high) = finder(false, &pos, roll, &values);
    assert!(low <= high);
    let all: Vec<u64> = pos
        .possible_positions(roll)
        .iter()
        .map(|p| score(&p.state))
        .collect();
    assert_eq!(low, *all.iter().min().unwrap());
    assert_eq!(high, *all.iter().max().unwrap());
}

#[test]
fn depth_two_averages_over_rolls() {
    let pos = FState::new();
    let roll = Roll::new(6, 5);
    let values = table_for(&leaf_boards(2, &pos, roll));
    let maxer = true;
    let cands = pos.possible_positions(roll);
    let pick_min = pos.turn == maxer;
    let mut best: Option<(FState, u64)> = None;
    for p in &cands {
        let v = match p.game_state() {
            GameState::GameOver(r) => {
                let rv = terminal_value(&r);
                if !pos.turn { rv } else { VALUE_ONE - rv }
            }
            GameState::Ongoing => {
                let total: u64 = all_21()
                    .iter()
                    .map(|(d, w)| w * finder(!maxer, p, *d, &values).1)
                    .sum();
                total / 36
            }
        };
        best = match best {
            None => Some((*p, v)),
            Some((b, bv)) => {
                if (pick_min && v < bv) || (!pick_min && v >= bv) {
                    Some((*p, v))
                } else {
                    Some((b, bv))
                }
            }
        };
    }
    let got = nply(2, maxer, &pos, roll, &values);
    assert_eq!(got, best.unwrap());
    assert!(got.1 <= VALUE_ONE);
    assert!(cands.contains(&got.0));
}

#[test]
fn leaf_boards_cover_the_search() {
    let pos = FState::new();
    let roll = Roll::new(4, 3);
    let leaves = leaf_boards(2, &pos, roll);
    let values = table_for(&leaves);
    // Each depth-one search below the root reads only boards the collection holds.
    for p in pos.possible_positions(roll) {
        for (d, _) in all_21() {
            for q in p.possible_positions(d) {
                assert!(values.contains_key(&input(&p, &q).dbhash()));
            }
        }
    }
}

#[test]
fn missing_values_score_zero() {
    let pos = FState::new();
    let roll = Roll::new(3, 2);
    let empty = HashMap::new();
    let (m, v) = finder(true, &pos, roll, &empty);
    assert_eq!(v, 0);
    assert_eq!(m, pos.possible_positions(roll)[0]);
}

#[test]
fn terminal_values() {
    assert_eq!(terminal_value(&GameResult::WinGammon), VALUE_ONE);
    assert_eq!(terminal_value(&GameResult::WinNormal), VALUE_ONE);
    assert_eq!(terminal_value(&GameResult::LoseBackgammon), 0);
}
