use yatsy::dice_result::DiceResult;
use yatsy::dice_result::ResultType;
use yatsy::scores::ScoreCard;

fn upper_types() -> Vec<ResultType> {
    vec![
        ResultType::Ones,
        ResultType::Twos,
        ResultType::Threes,
        ResultType::Fours,
        ResultType::Fives,
        ResultType::Sixes,
    ]
}

fn lower_types() -> Vec<ResultType> {
    vec![
        ResultType::Pair,
        ResultType::TwoPairs,
        ResultType::ThreeOfAKind,
        ResultType::FourOfAKind,
        ResultType::SmallStraight,
        ResultType::LargeStraight,
        ResultType::FullHouse,
        ResultType::Chance,
        ResultType::Yatsy,
    ]
}

#[test]
fn test_fresh_card_all_open() {
    let card = ScoreCard::new();
    assert!(!card.is_complete());
    let avail = card.get_available_types();
    assert_eq!(avail.len(), 15);
    for (i, t) in upper_types().iter().chain(lower_types().iter()).enumerate() {
        assert_eq!(avail[i], *t);
    }
    assert_eq!(card.total(), 0);
    assert_eq!(card.get_bonus(), 0);
}

#[test]
fn test_full_game_with_bonus() {
    // Claim the whole upper section high enough for the bonus, strike
    // the other nine rows: the total is the claimed sum plus fifty.
    let mut card = ScoreCard::new();
    for (i, t) in upper_types().iter().enumerate() {
        card.add_result(DiceResult { result_type: *t, score: ((i as i32) + 1) * 5 });
    }
    assert_eq!(card.get_bonus(), 50);
    for t in lower_types().iter() {
        card.strike(*t);
    }
    assert!(card.is_complete());
    assert_eq!(card.total(), 105 + 50);
    assert_eq!(card.get_available_types().len(), 0);
}

#[test]
fn test_bonus_needs_sixty_three() {
    let mut card = ScoreCard::new();
    card.add_result(DiceResult { result_type: ResultType::Sixes, score: 30 });
    card.add_result(DiceResult { result_type: ResultType::Fives, score: 25 });
    card.add_result(DiceResult { result_type: ResultType::Fours, score: 4 });
    // Upper sum 59: just short of the bonus.
    assert_eq!(card.get_bonus(), 0);
    assert_eq!(card.total(), 59);
    card.add_result(DiceResult { result_type: ResultType::Ones, score: 4 });
    // Upper sum 63: exactly at the threshold.
    assert_eq!(card.get_bonus(), 50);
    assert_eq!(card.total(), 63 + 50);
}

#[test]
fn test_lower_section_not_in_bonus() {
    let mut card = ScoreCard::new();
    card.add_result(DiceResult { result_type: ResultType::Chance, score: 30 });
    card.add_result(DiceResult { result_type: ResultType::Yatsy, score: 50 });
    assert_eq!(card.get_bonus(), 0);
    assert_eq!(card.total(), 80);
}

#[test]
fn test_claimed_slot_never_changes() {
    let mut card = ScoreCard::new();
    card.add_result(DiceResult { result_type: ResultType::Pair, score: 12 });
    card.add_result(DiceResult { result_type: ResultType::Pair, score: 8 });
    assert_eq!(card.total(), 12);
    let avail = card.get_available_types();
    assert_eq!(avail.len(), 14);
    assert!(!avail.contains(&ResultType::Pair));
}

#[test]
fn test_struck_slot_never_changes() {
    let mut card = ScoreCard::new();
    card.strike(ResultType::Yatsy);
    card.add_result(DiceResult { result_type: ResultType::Yatsy, score: 50 });
    assert_eq!(card.total(), 0);
    assert!(!card.get_available_types().contains(&ResultType::Yatsy));
}

#[test]
fn test_fifteen_moves_complete_the_card() {
    let mut card = ScoreCard::new();
    let mut moves: i32 = 0;
    for t in upper_types().iter() {
        assert!(!card.is_complete());
        card.add_result(DiceResult { result_type: *t, score: 1 });
        moves += 1;
    }
    for t in lower_types().iter() {
        assert!(!card.is_complete());
        card.strike(*t);
        moves += 1;
    }
    assert_eq!(moves, 15);
    assert!(card.is_complete());
}

#[test]
fn test_section_views() {
    let mut card = ScoreCard::new();
    card.add_result(DiceResult { result_type: ResultType::Threes, score: 9 });
    card.add_result(DiceResult { result_type: ResultType::Chance, score: 17 });
    let upper = card.get_upper_scores();
    let lower = card.get_lower_scores();
    assert_eq!(upper.len(), 6);
    assert_eq!(lower.len(), 9);
    assert_eq!(upper[2].score, 9);
    assert_eq!(upper[2].score_type, ResultType::Threes);
    assert!(upper[2].scored());
    assert_eq!(lower[7].score, 17);
    assert!(!lower[0].scored());
}
