use yatsy::dice::DiceRoll;
use yatsy::dice_result::DiceResult;
use yatsy::dice_result::ResultType;
use yatsy::dice_result::get_results;
use yatsy::dice_result::score_for;

#[test]
fn test_result() {
    let results = get_results(DiceRoll { dice: [1, 2, 3, 4, 5] });
    assert_eq!(
        results,
        vec![
            DiceResult { result_type: ResultType::Ones, score: 1 },
            DiceResult { result_type: ResultType::Twos, score: 2 },
            DiceResult { result_type: ResultType::Threes, score: 3 },
            DiceResult { result_type: ResultType::Fours, score: 4 },
            DiceResult { result_type: ResultType::Fives, score: 5 },
            DiceResult { result_type: ResultType::SmallStraight, score: 15 },
            DiceResult { result_type: ResultType::Chance, score: 15 },
        ]
    );

    let results = get_results(DiceRoll { dice: [2, 2, 2, 3, 3] });
    assert_eq!(
        results,
        vec![
            DiceResult { result_type: ResultType::Twos, score: 6 },
            DiceResult { result_type: ResultType::Threes, score: 6 },
            DiceResult { result_type: ResultType::Pair, score: 6 },
            DiceResult { result_type: ResultType::TwoPairs, score: 10 },
            DiceResult { result_type: ResultType::ThreeOfAKind, score: 6 },
            DiceResult { result_type: ResultType::FullHouse, score: 12 },
            DiceResult { result_type: ResultType::Chance, score: 12 },
        ]
    );

    let results = get_results(DiceRoll { dice: [1, 1, 1, 1, 1] });
    assert_eq!(
        results,
        vec![
            DiceResult { result_type: ResultType::Ones, score: 5 },
            DiceResult { result_type: ResultType::Pair, score: 2 },
            DiceResult { result_type: ResultType::ThreeOfAKind, score: 3 },
            DiceResult { result_type: ResultType::FourOfAKind, score: 4 },
            DiceResult { result_type: ResultType::Chance, score: 5 },
            DiceResult { result_type: ResultType::Yatsy, score: 50 },
        ]
    );
}

#[test]
fn test_result_large_straight_hand() {
    let results = get_results(DiceRoll { dice: [6, 4, 5, 3, 2] });
    assert_eq!(
        results,
        vec![
            DiceResult { result_type: ResultType::Twos, score: 2 },
            DiceResult { result_type: ResultType::Threes, score: 3 },
            DiceResult { result_type: ResultType::Fours, score: 4 },
            DiceResult { result_type: ResultType::Fives, score: 5 },
            DiceResult { result_type: ResultType::Sixes, score: 6 },
            DiceResult { result_type: ResultType::LargeStraight, score: 20 },
            DiceResult { result_type: ResultType::Chance, score: 20 },
        ]
    );
}

#[test]
fn test_result_two_pairs_hand() {
    let results = get_results(DiceRoll { dice: [1, 3, 3, 4, 1] });
    assert_eq!(
        results,
        vec![
            DiceResult { result_type: ResultType::Ones, score: 2 },
            DiceResult { result_type: ResultType::Threes, score: 6 },
            DiceResult { result_type: ResultType::Fours, score: 4 },
            DiceResult { result_type: ResultType::Pair, score: 6 },
            DiceResult { result_type: ResultType::TwoPairs, score: 8 },
            DiceResult { result_type: ResultType::Chance, score: 12 },
        ]
    );
}

#[test]
fn test_result_order_invariant() {
    let a = get_results(DiceRoll { dice: [1, 2, 3, 4, 5] });
    let b = get_results(DiceRoll { dice: [5, 4, 3, 2, 1] });
    let c = get_results(DiceRoll { dice: [3, 1, 5, 2, 4] });
    assert_eq!(a, b);
    assert_eq!(a, c);
}

#[test]
fn test_result_upper_rows_match_counts() {
    let roll = DiceRoll { dice: [6, 6, 2, 6, 2] };
    assert_eq!(roll.ones(), 1 * 0);
    assert_eq!(roll.twos(), 2 * 2);
    assert_eq!(roll.threes(), 3 * 0);
    assert_eq!(roll.fours(), 4 * 0);
    assert_eq!(roll.fives(), 5 * 0);
    assert_eq!(roll.sixes(), 6 * 3);
}

#[test]
fn test_result_zero_suppressed_and_ordered() {
    let hands = [
        [1, 2, 3, 4, 5],
        [2, 2, 2, 3, 3],
        [1, 1, 1, 1, 1],
        [6, 4, 5, 3, 2],
        [1, 3, 3, 4, 1],
        [6, 6, 6, 6, 6],
        [1, 1, 2, 2, 3],
    ];
    for dice in hands {
        let results = get_results(DiceRoll { dice });
        let mut last_index = None;
        for r in &results {
            assert!(r.score > 0);
            let idx = r.result_type.index();
            if let Some(prev) = last_index {
                assert!(idx > prev);
            }
            last_index = Some(idx);
        }
    }
}

#[test]
fn test_result_five_of_a_kind_rules() {
    // Five of a kind pays the pair row but neither two pairs nor a
    // full house.
    let results = get_results(DiceRoll { dice: [4, 4, 4, 4, 4] });
    assert_eq!(
        results,
        vec![
            DiceResult { result_type: ResultType::Fours, score: 20 },
            DiceResult { result_type: ResultType::Pair, score: 8 },
            DiceResult { result_type: ResultType::ThreeOfAKind, score: 12 },
            DiceResult { result_type: ResultType::FourOfAKind, score: 16 },
            DiceResult { result_type: ResultType::Chance, score: 20 },
            DiceResult { result_type: ResultType::Yatsy, score: 50 },
        ]
    );
}

#[test]
fn test_score_for_matches_rows() {
    let roll = DiceRoll { dice: [2, 2, 2, 3, 3] };
    assert_eq!(score_for(&roll, ResultType::Twos), 6);
    assert_eq!(score_for(&roll, ResultType::FullHouse), 12);
    assert_eq!(score_for(&roll, ResultType::Yatsy), 0);
    assert_eq!(score_for(&roll, ResultType::SmallStraight), 0);
}
