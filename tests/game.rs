use bkgm::State;
use td_gammon::board::{Board, NUM_CHECKERS};
use td_gammon::dice::{all_21, first_roll_of, roll_of, DiceSource, Roll};
use td_gammon::evaluator::{Evaluator, RandomEvaluator};
use td_gammon::fstate::FState;
use td_gammon::outcome::{GameResult, GameState};
use td_gammon::train::TrainingSchedule;

fn board(entries: &[(usize, i8)]) -> Board {
    let mut pips = [0i8; 26];
    for &(i, n) in entries {
        pips[i] = n;
    }
    Board { pips }
}

#[test]
fn dice_table_has_21_rolls_weighing_36() {
    let table = all_21();
    assert_eq!(table.len(), 21);
    assert_eq!(table.iter().map(|e| e.1).sum::<u64>(), 36);
    let doubles = table.iter().filter(|e| e.0.small == e.0.big).count();
    assert_eq!(doubles, 6);
    assert!(table.iter().all(|e| e.1 == if e.0.small == e.0.big { 1 } else { 2 }));
    for i in 0..table.len() {
        for j in 0..table.len() {
            if i != j {
                assert_ne!(table[i].0, table[j].0);
            }
        }
    }
    assert_eq!(table[0], (Roll { small: 1, big: 1 }, 1));
    assert_eq!(table[1], (Roll { small: 1, big: 2 }, 2));
    assert_eq!(table[20], (Roll { small: 6, big: 6 }, 1));
}

#[test]
fn dice_table_matches_bkgm() {
    let ours = all_21();
    let theirs = bkgm::dice::ALL_21;
    for (i, (dice, n)) in theirs.iter().enumerate() {
        let expected = bkgm::Dice::new(ours[i].0.small as usize, ours[i].0.big as usize);
        assert_eq!(*dice, expected);
        assert_eq!(*n as u64, ours[i].1);
    }
}

#[test]
fn roll_new_orders_dice() {
    assert_eq!(Roll::new(5, 2), Roll { small: 2, big: 5 });
    assert_eq!(Roll::new(3, 3), Roll { small: 3, big: 3 });
}

#[test]
fn seeded_dice_repeat() {
    let mut a = DiceSource::with_seed(42);
    let mut b = DiceSource::with_seed(42);
    for _ in 0..100 {
        let (x, y) = (a.roll(), b.roll());
        assert_eq!(x, y);
        assert!(1 <= x.small && x.small <= x.big && x.big <= 6);
    }
    for _ in 0..100 {
        let r = a.first_roll();
        assert!(r.small < r.big && r.small >= 1 && r.big <= 6);
    }
}

#[test]
fn dice_cover_all_outcomes() {
    let mut d = DiceSource::with_seed(7);
    let mut seen = std::collections::HashSet::new();
    for _ in 0..2000 {
        let r = d.roll();
        seen.insert((r.small, r.big));
    }
    assert_eq!(seen.len(), 21);
}

#[test]
fn start_position() {
    let b = Board::start();
    assert_eq!(b.pips, <[i8; 26]>::from(bkgm::HYPERGAMMON));
    assert_eq!(b.pips[1], -1);
    assert_eq!(b.pips[24], 1);
    assert_eq!(b.game_state(), GameState::Ongoing);
    assert_eq!(NUM_CHECKERS, 3);
}

#[test]
fn flip_mirrors_board() {
    let b = board(&[(25, 1), (10, 2), (3, -2), (0, -1)]);
    let f = b.flip();
    assert_eq!(f.pips[0], -1);
    assert_eq!(f.pips[15], -2);
    assert_eq!(f.pips[22], 2);
    assert_eq!(f.pips[25], 1);
    assert_eq!(f.flip(), b);
}

#[test]
fn game_state_results() {
    // mover has borne off everything; opponent still in the mover's home board
    assert_eq!(
        board(&[(3, -3)]).game_state(),
        GameState::GameOver(GameResult::WinBackgammon)
    );
    // opponent outside the mover's home board, none borne off
    assert_eq!(
        board(&[(12, -3)]).game_state(),
        GameState::GameOver(GameResult::WinGammon)
    );
    // opponent has borne one off
    assert_eq!(
        board(&[(12, -2)]).game_state(),
        GameState::GameOver(GameResult::WinNormal)
    );
    // opponent has borne off everything, mover still in the opponent's home board
    assert_eq!(
        board(&[(20, 3)]).game_state(),
        GameState::GameOver(GameResult::LoseBackgammon)
    );
    assert_eq!(
        board(&[(10, 3)]).game_state(),
        GameState::GameOver(GameResult::LoseGammon)
    );
    assert_eq!(
        board(&[(10, 1)]).game_state(),
        GameState::GameOver(GameResult::LoseNormal)
    );
    assert_eq!(board(&[(10, 1), (5, -1)]).game_state(), GameState::Ongoing);
}

#[test]
fn successors_match_bkgm() {
    let b = Board::start();
    let roll = Roll::new(3, 1);
    let ours = b.possible_positions(roll);
    let p = bkgm::Position::<3>::try_from(b.pips).unwrap();
    let theirs = bkgm::legal_positions_with::<bkgm::ClassicRules, 3>(p, &bkgm::Dice::new(3, 1));
    assert!(!ours.is_empty());
    assert_eq!(ours.len(), theirs.len());
    for (o, t) in ours.iter().zip(theirs.iter()) {
        assert_eq!(o.pips, <[i8; 26]>::from(*t));
        assert_ne!(o.pips, b.pips);
    }
}

#[test]
fn dbhash_matches_bkgm() {
    let b = Board::start().possible_positions(Roll::new(6, 2))[0];
    let p = bkgm::Position::<3>::try_from(b.pips).unwrap();
    assert_eq!(b.dbhash(), p.dbhash());
    assert_ne!(b.dbhash(), b.flip().dbhash());
    assert!(b.dbhash() < td_gammon::hyper::POSSIBLE);
}

#[test]
fn fstate_new_and_successors_pass_the_turn() {
    let s = FState::new();
    assert!(s.turn);
    assert_eq!(s.position(), Board::start());
    let next = s.possible_positions(Roll::new(4, 2));
    assert!(!next.is_empty());
    for n in &next {
        assert!(!n.turn);
    }
    let again = next[0].possible_positions(Roll::new(5, 5));
    for n in &again {
        assert!(n.turn);
    }
}

#[test]
fn fstate_resolved_views() {
    let b = board(&[(25, 1), (10, 2), (3, -2), (0, -1)]);
    let mine = FState { state: b, turn: true };
    let theirs = FState { state: b, turn: false };
    assert_eq!(mine.f_state(), b);
    assert_eq!(theirs.f_state(), b.flip());
    let over = board(&[(3, -3)]);
    let s = FState { state: over, turn: false };
    assert_eq!(s.game_state(), GameState::GameOver(GameResult::WinBackgammon));
    assert_eq!(s.f_game_state(), GameState::GameOver(GameResult::LoseBackgammon));
    let f = s.flip();
    assert!(f.turn);
    assert_eq!(f.state, over.flip());
    assert_eq!(FState::from_position(over).turn, true);
}

#[test]
fn random_evaluator_plays_a_legal_move() {
    let e = RandomEvaluator::new();
    let s = FState::new();
    let roll = Roll::new(6, 1);
    let options = s.possible_positions(roll);
    for _ in 0..20 {
        let m = e.best_position(&s, roll);
        assert!(options.contains(&m));
    }
}

#[test]
fn board_counts() {
    let b = board(&[(25, 1), (10, 1), (3, -2), (0, -1)]);
    assert_eq!(b.x_bar(), 1);
    assert_eq!(b.o_bar(), 1);
    assert_eq!(b.x_off(), 1);
    assert_eq!(b.o_off(), 0);
    assert_eq!(b.pip(3), -2);
    let p = bkgm::Position::<3>::try_from(b.pips).unwrap();
    assert_eq!(b.x_off(), p.x_off());
    assert_eq!(b.o_off(), p.o_off());
    let s = FState { state: b, turn: false };
    assert_eq!(s.x_bar(), 1);
    assert_eq!(s.o_bar(), 1);
    assert_eq!(s.x_off(), 1);
    assert_eq!(s.o_off(), 0);
    assert_eq!(s.pip(10), 1);
    assert_eq!(s.dbhash(), b.dbhash());
}

#[test]
fn training_schedule_checkpoints_and_guard() {
    let mut s = TrainingSchedule::new(10, 4, 3, 5);
    assert!(!s.is_done());
    assert!(s.checkpoint_due());
    s.advance();
    assert!(!s.checkpoint_due());
    assert!(!s.evaluation_due());
    s.advance();
    s.advance();
    assert!(s.evaluation_due());
    // 53 wins in 100 games is not above 53%
    assert!(!s.record_evaluation(53, 100));
    assert_eq!(s.best_episode, 0);
    assert!(s.record_evaluation(54, 100));
    assert_eq!(s.best_episode, 3);
    for _ in 0..6 {
        s.advance();
    }
    assert_eq!(s.episode, 9);
    assert!(s.should_revert());
    s.revert();
    assert_eq!(s.episode, 3);
    assert!(!s.should_revert());
    let mut never = TrainingSchedule::new(2, 0, 0, 0);
    assert!(!never.checkpoint_due());
    never.advance();
    never.advance();
    never.advance();
    assert!(never.is_done());
    assert!(!never.should_revert());
}

#[test]
fn rolls_of_drawn_numbers() {
    assert_eq!(roll_of(0), Roll { small: 1, big: 1 });
    assert_eq!(roll_of(7), Roll { small: 2, big: 2 });
    assert_eq!(roll_of(11), Roll { small: 2, big: 6 });
    assert_eq!(roll_of(30), Roll { small: 1, big: 6 });
    assert_eq!(roll_of(35), Roll { small: 6, big: 6 });
    // 0: dice 1 and 1, the first moved up to 2
    assert_eq!(first_roll_of(0), Roll { small: 1, big: 2 });
    // 7: dice 2 and 2, the first moved up to 3
    assert_eq!(first_roll_of(7), Roll { small: 2, big: 3 });
    // 5: dice 1 and 6
    assert_eq!(first_roll_of(5), Roll { small: 1, big: 6 });
    // 29: dice 5 and 6, already different
    assert_eq!(first_roll_of(29), Roll { small: 5, big: 6 });
    let mut seen = std::collections::HashSet::new();
    for x in 0..30 {
        let r = first_roll_of(x);
        assert!(r.small < r.big);
        seen.insert((r.small, r.big));
    }
    assert_eq!(seen.len(), 15);
}

#[test]
fn random_move_is_the_drawn_successor() {
    let e = RandomEvaluator::new();
    let s = FState::new();
    let roll = Roll::new(5, 3);
    let options = s.possible_positions(roll);
    for (i, o) in options.iter().enumerate() {
        assert_eq!(e.successor_at(&s, roll, i), Some(*o));
    }
    assert_eq!(e.successor_at(&s, roll, options.len()), None);
}
