use td_gammon::dice::DiceSource;
use td_gammon::duel::Duel;
use td_gammon::evaluator::{Evaluator, RandomEvaluator};
use td_gammon::outcome::GameResult;
use td_gammon::probabilities::ResultCounter;

fn single_duel<T: Evaluator, U: Evaluator>(duel: &Duel<T, U>, dice: &mut DiceSource) -> ResultCounter {
    let mut games = duel.start();
    let mut roll = dice.first_roll();
    while !games.is_finished() {
        duel.play_ply(&mut games, roll);
        roll = dice.roll();
    }
    games.finish()
}

#[test]
fn single_duel_adds_two_results() {
    let duel = Duel::new(RandomEvaluator::new(), RandomEvaluator::new());
    for seed in 0..50 {
        let mut dice = DiceSource::with_seed(seed);
        let counter = single_duel(&duel, &mut dice);
        assert_eq!(counter.sum(), 2);
    }
}

#[test]
fn start_counts_nothing() {
    let duel = Duel::new(RandomEvaluator::new(), RandomEvaluator::new());
    let games = duel.start();
    assert!(!games.is_finished());
    assert_eq!(games.counter.sum(), 0);
    assert_eq!(games.iteration, 1);
}

#[test]
fn finished_games_are_counted_once() {
    let duel = Duel::new(RandomEvaluator::new(), RandomEvaluator::new());
    let mut dice = DiceSource::with_seed(3);
    let mut games = duel.start();
    while !games.is_finished() {
        duel.play_ply(&mut games, dice.roll());
    }
    let before = games.counter.sum();
    duel.play_ply(&mut games, dice.roll());
    duel.play_ply(&mut games, dice.roll());
    assert_eq!(before, 2);
    assert_eq!(games.counter.sum(), 2);
}

#[test]
fn self_duel_is_even() {
    let duel = Duel::new(RandomEvaluator::new(), RandomEvaluator::new());
    let mut dice = DiceSource::with_seed(11);
    let mut results = ResultCounter::default();
    let rounds = 600;
    for _ in 0..rounds {
        results = results.combine(&single_duel(&duel, &mut dice));
    }
    assert_eq!(results.sum(), 2 * rounds);
    let wins = results.num_of(GameResult::WinNormal)
        + results.num_of(GameResult::WinGammon)
        + results.num_of(GameResult::WinBackgammon);
    let p = wins as f64 / results.sum() as f64;
    assert!((p - 0.5).abs() < 0.07, "win probability {}", p);
    let w = results.probabilities().win_prob();
    assert_eq!(w.num as u32, wins);
}
