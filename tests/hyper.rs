use td_gammon::board::Board;
use td_gammon::dice::Roll;
use td_gammon::evaluator::Evaluator;
use td_gammon::fstate::FState;
use td_gammon::hyper::{record_equity_of, HyperEvaluator, POSSIBLE};

fn record(values: [f32; 5]) -> Vec<u8> {
    values.iter().flat_map(|v| v.to_le_bytes()).collect()
}

#[test]
fn possible_is_squared_multiset_count() {
    assert_eq!(POSSIBLE, bkgm::utils::mcomb(26, 3).pow(2));
}

#[test]
fn wrong_record_count_is_unavailable() {
    let mut bytes = Vec::new();
    for _ in 0..3 {
        bytes.extend(record([0.5, 0.2, 0.1, 0.2, 0.1]));
    }
    assert!(HyperEvaluator::from_records(&bytes, 5).is_none());
    assert!(HyperEvaluator::from_records(&bytes, 2).is_none());
    assert!(HyperEvaluator::from_bytes(&bytes).is_none());
    assert!(HyperEvaluator::from_bytes(&[]).is_none());
}

#[test]
fn exact_record_count_loads() {
    let mut bytes = Vec::new();
    bytes.extend(record([0.5, 0.2, 0.1, 0.2, 0.1]));
    bytes.extend(record([1.0, 0.0, 0.0, 0.0, 0.0]));
    let table = HyperEvaluator::from_records(&bytes, 2).unwrap();
    assert_eq!(table.len(), 2);
    let first = table.record(0).unwrap();
    assert_eq!(first, [0.5f32.to_bits(), 0.2f32.to_bits(), 0.1f32.to_bits(), 0.2f32.to_bits(), 0.1f32.to_bits()]);
    assert_eq!(f32::from_bits(table.record(1).unwrap()[0]), 1.0);
    assert!(table.record(2).is_none());
}

#[test]
fn truncated_record_is_unavailable() {
    let mut bytes = Vec::new();
    bytes.extend(record([0.5, 0.2, 0.1, 0.2, 0.1]));
    bytes.extend(record([1.0, 0.0, 0.0, 0.0, 0.0]));
    bytes.extend([1u8, 2, 3]);
    assert!(HyperEvaluator::from_records(&bytes, 2).is_none());
    assert!(HyperEvaluator::from_records(&bytes[..39], 2).is_none());
    assert!(HyperEvaluator::from_records(&bytes[..40], 2).is_some());
}

#[test]
fn lookup_by_board_index() {
    let mut bytes = Vec::new();
    for _ in 0..4 {
        bytes.extend(record([0.5, 0.2, 0.1, 0.2, 0.1]));
    }
    let table = HyperEvaluator::from_records(&bytes, 4).unwrap();
    let start = FState::new();
    assert!(start.dbhash() >= 4);
    assert!(table.lookup(&start).is_none());
}

fn words(values: [f32; 5]) -> [u32; 5] {
    values.map(f32::to_bits)
}

const UNIT: i128 = 1 << 64;

#[test]
fn record_equity_exact_values() {
    assert_eq!(record_equity_of(&words([0.5, 0.2, 0.1, 0.2, 0.1])), Some(0));
    assert_eq!(record_equity_of(&words([1.0, 0.0, 0.0, 0.0, 0.0])), Some(UNIT));
    assert_eq!(record_equity_of(&words([1.0, 1.0, 1.0, 0.0, 0.0])), Some(3 * UNIT));
    assert_eq!(record_equity_of(&words([0.0, 0.0, 0.0, 1.0, 1.0])), Some(-3 * UNIT));
    assert_eq!(record_equity_of(&words([0.0, 0.0, 0.0, 0.0, 0.0])), Some(-UNIT));
    assert_eq!(
        record_equity_of(&words([0.75, 0.25, 0.0, 0.125, 0.0])),
        Some(UNIT / 2 + UNIT / 8)
    );
    assert_eq!(record_equity_of(&words([-0.5, 0.0, 0.0, 0.0, 0.0])), None);
    assert_eq!(record_equity_of(&words([1.0, -0.0, -0.0, -0.0, -0.0])), Some(UNIT));
    assert_eq!(record_equity_of(&words([f32::NAN, 0.0, 0.0, 0.0, 0.0])), None);
    assert_eq!(record_equity_of(&words([2.5, 0.0, 0.0, 0.0, 0.0])), None);
}

#[test]
fn database_picks_lowest_equity() {
    // The opponent has one checker left, on the verge of bearing off: every successor,
    // seen from the opponent, has a small board index.
    let mut pips = [0i8; 26];
    pips[24] = -1;
    pips[10] = 1;
    pips[8] = 1;
    pips[6] = 1;
    let pos = FState { state: Board { pips }, turn: true };
    let n = 26 * 3276;
    let win = |i: usize| ((i * 7919) % 1000) as f32 / 1000.0;
    let mut bytes = Vec::with_capacity(20 * n);
    for i in 0..n {
        bytes.extend(record([win(i), 0.0, 0.0, 0.0, 0.0]));
    }
    let table = HyperEvaluator::from_records(&bytes, n).unwrap();
    for roll in [Roll::new(3, 1), Roll::new(6, 4), Roll::new(2, 2)] {
        let cands = pos.possible_positions(roll);
        let mut expected = cands[0];
        let mut low = win(cands[0].dbhash());
        for c in &cands[1..] {
            assert!(c.dbhash() < n);
            let w = win(c.dbhash());
            if w < low {
                low = w;
                expected = *c;
            }
        }
        assert_eq!(table.best_position(&pos, roll), expected);
        assert_eq!(table.lowest_equity_successor(&pos, roll), expected);
    }
}
