use yatsy::dice::DiceRoll;

#[test]
fn test_ones() {
    let roll = DiceRoll { dice: [1, 1, 2, 3, 4] };
    assert_eq!(roll.ones(), 2);
}

#[test]
fn test_twos() {
    let roll = DiceRoll { dice: [2, 2, 3, 4, 5] };
    assert_eq!(roll.twos(), 4);
}

#[test]
fn test_threes() {
    let roll = DiceRoll { dice: [3, 3, 3, 4, 5] };
    assert_eq!(roll.threes(), 9);
}

#[test]
fn test_fours() {
    let roll = DiceRoll { dice: [4, 4, 4, 4, 5] };
    assert_eq!(roll.fours(), 16);
}

#[test]
fn test_fives() {
    let roll = DiceRoll { dice: [5, 5, 5, 5, 5] };
    assert_eq!(roll.fives(), 25);
}

#[test]
fn test_sixes() {
    let roll = DiceRoll { dice: [6, 6, 6, 6, 6] };
    assert_eq!(roll.sixes(), 30);
}

#[test]
fn test_pair() {
    let roll = DiceRoll { dice: [6, 6, 6, 6, 6] };
    assert_eq!(roll.pair(), 12);

    let roll = DiceRoll { dice: [1, 2, 3, 4, 5] };
    assert_eq!(roll.pair(), 0);

    let roll = DiceRoll { dice: [1, 2, 3, 4, 4] };
    assert_eq!(roll.pair(), 8);
}

#[test]
fn test_two_pairs() {
    let roll = DiceRoll { dice: [6, 6, 6, 6, 6] };
    assert_eq!(roll.two_pairs(), 0);

    let roll = DiceRoll { dice: [1, 3, 3, 4, 1] };
    assert_eq!(roll.two_pairs(), 8);

    let roll = DiceRoll { dice: [2, 2, 4, 4, 4] };
    assert_eq!(roll.two_pairs(), 12);
}

#[test]
fn test_three_of_a_kind() {
    let roll = DiceRoll { dice: [2, 2, 4, 2, 2] };
    assert_eq!(roll.three_of_a_kind(), 6);

    let roll = DiceRoll { dice: [1, 3, 3, 4, 1] };
    assert_eq!(roll.three_of_a_kind(), 0);

    let roll = DiceRoll { dice: [5, 2, 5, 5, 4] };
    assert_eq!(roll.three_of_a_kind(), 15);
}

#[test]
fn test_four_of_a_kind() {
    let roll = DiceRoll { dice: [2, 2, 4, 2, 2] };
    assert_eq!(roll.four_of_a_kind(), 8);

    let roll = DiceRoll { dice: [3, 3, 3, 4, 1] };
    assert_eq!(roll.four_of_a_kind(), 0);

    let roll = DiceRoll { dice: [5, 5, 5, 5, 5] };
    assert_eq!(roll.four_of_a_kind(), 20);
}

#[test]
fn test_small_straight() {
    let roll = DiceRoll { dice: [1, 4, 5, 2, 3] };
    assert_eq!(roll.small_straight(), 15);

    let roll = DiceRoll { dice: [1, 5, 5, 2, 3] };
    assert_eq!(roll.small_straight(), 0);
}

#[test]
fn test_large_straight() {
    let roll = DiceRoll { dice: [6, 4, 5, 3, 2] };
    assert_eq!(roll.large_straight(), 20);

    let roll = DiceRoll { dice: [1, 5, 5, 2, 3] };
    assert_eq!(roll.large_straight(), 0);
}

#[test]
fn test_full_house() {
    let roll = DiceRoll { dice: [6, 6, 3, 3, 3] };
    assert_eq!(roll.full_house(), 21);

    let roll = DiceRoll { dice: [1, 5, 5, 2, 3] };
    assert_eq!(roll.full_house(), 0);
}

#[test]
fn test_chance() {
    let roll = DiceRoll { dice: [1, 2, 3, 4, 5] };
    assert_eq!(roll.chance(), 15);
}

#[test]
fn test_yatsy() {
    let roll = DiceRoll { dice: [1, 1, 1, 1, 1] };
    assert_eq!(roll.yatsy(), 50);

    let roll = DiceRoll { dice: [6, 4, 5, 3, 2] };
    assert_eq!(roll.yatsy(), 0);
}

#[test]
fn test_new_roll_faces_legal() {
    let roll = DiceRoll::new();
    for i in 0..5 {
        assert!(roll.dice[i] >= 1 && roll.dice[i] <= 6);
    }
}

#[test]
fn test_reroll_keeps_unlisted_dice() {
    let mut roll = DiceRoll { dice: [1, 2, 3, 4, 5] };
    let rerolled = roll.reroll(vec![1, 3]);
    assert_eq!(rerolled.dice[0], 1);
    assert_eq!(rerolled.dice[2], 3);
    assert_eq!(rerolled.dice[4], 5);
    for i in 0..5 {
        assert!(rerolled.dice[i] >= 1 && rerolled.dice[i] <= 6);
    }
    assert_eq!(roll.dice, [1, 2, 3, 4, 5]);
}

#[test]
fn test_reroll_ignores_out_of_range() {
    let mut roll = DiceRoll { dice: [2, 2, 6, 6, 6] };
    let rerolled = roll.reroll(vec![7, 99]);
    assert_eq!(rerolled.dice, [2, 2, 6, 6, 6]);
}

#[test]
fn test_counts_match_faces() {
    let roll = DiceRoll { dice: [4, 4, 2, 4, 6] };
    assert_eq!(roll.get_count_for_value(4), 3);
    assert_eq!(roll.get_count_for_value(2), 1);
    assert_eq!(roll.get_count_for_value(5), 0);
    assert_eq!(roll.get_value_sum(4), 12);
    assert_eq!(roll.get_value_sum(5), 0);
    assert_eq!(roll.get_value_for_count(3), 4);
    assert_eq!(roll.get_value_for_count(5), 0);
}
