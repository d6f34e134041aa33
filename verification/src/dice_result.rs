use crate::dice::DiceRoll;
use crate::dice::chance_score;
use crate::dice::die_ok;
use crate::dice::exact_count_face;
use crate::dice::face_score;
use crate::dice::four_of_a_kind_score;
use crate::dice::full_house_score;
use crate::dice::large_straight_score;
use crate::dice::num_pairs_upto;
use crate::dice::pair_faces_sum_upto;
use crate::dice::pair_score;
use crate::dice::small_straight_score;
use crate::dice::three_of_a_kind_score;
use crate::dice::top_face_with_count;
use crate::dice::two_pairs_score;
use crate::dice::yatsy_score;
use vstd::multiset::Multiset;
use vstd::prelude::*;

verus! {

/// The fifteen scoring categories, in canonical card order: the six
/// upper-section rows first, then the nine combination rows.
#[derive(PartialEq, Debug, Clone, Copy)]
pub enum ResultType {
    Ones,
    Twos,
    Threes,
    Fours,
    Fives,
    Sixes,
    Pair,
    TwoPairs,
    ThreeOfAKind,
    FourOfAKind,
    SmallStraight,
    LargeStraight,
    FullHouse,
    Chance,
    Yatsy,
}

/// The position of a category on the card, from zero to fourteen.
pub open spec fn type_index(t: ResultType) -> int {
    match t {
        ResultType::Ones => 0,
        ResultType::Twos => 1,
        ResultType::Threes => 2,
        ResultType::Fours => 3,
        ResultType::Fives => 4,
        ResultType::Sixes => 5,
        ResultType::Pair => 6,
        ResultType::TwoPairs => 7,
        ResultType::ThreeOfAKind => 8,
        ResultType::FourOfAKind => 9,
        ResultType::SmallStraight => 10,
        ResultType::LargeStraight => 11,
        ResultType::FullHouse => 12,
        ResultType::Chance => 13,
        ResultType::Yatsy => 14,
    }
}

/// The category at position `i` of the card.
pub open spec fn canonical_type(i: int) -> ResultType {
    if i == 0 {
        ResultType::Ones
    } else if i == 1 {
        ResultType::Twos
    } else if i == 2 {
        ResultType::Threes
    } else if i == 3 {
        ResultType::Fours
    } else if i == 4 {
        ResultType::Fives
    } else if i == 5 {
        ResultType::Sixes
    } else if i == 6 {
        ResultType::Pair
    } else if i == 7 {
        ResultType::TwoPairs
    } else if i == 8 {
        ResultType::ThreeOfAKind
    } else if i == 9 {
        ResultType::FourOfAKind
    } else if i == 10 {
        ResultType::SmallStraight
    } else if i == 11 {
        ResultType::LargeStraight
    } else if i == 12 {
        ResultType::FullHouse
    } else if i == 13 {
        ResultType::Chance
    } else {
        ResultType::Yatsy
    }
}

impl ResultType {
    /// The position of this category on the card.
    pub fn index(&self) -> (i: usize)
        ensures
            i == type_index(*self),
            i < 15,
            canonical_type(i as int) == *self,
    {
        match self {
            ResultType::Ones => 0,
            ResultType::Twos => 1,
            ResultType::Threes => 2,
            ResultType::Fours => 3,
            ResultType::Fives => 4,
            ResultType::Sixes => 5,
            ResultType::Pair => 6,
            ResultType::TwoPairs => 7,
            ResultType::ThreeOfAKind => 8,
            ResultType::FourOfAKind => 9,
            ResultType::SmallStraight => 10,
            ResultType::LargeStraight => 11,
            ResultType::FullHouse => 12,
            ResultType::Chance => 13,
            ResultType::Yatsy => 14,
        }
    }
}

/// A category together with the score the current hand would yield
/// for it.
#[derive(PartialEq, Debug, Clone, Copy)]
pub struct DiceResult {
    pub result_type: ResultType,
    pub score: i32,
}

/// A multiset of faces that a five-die hand can show.
pub open spec fn is_hand(m: Multiset<i32>) -> bool {
    m.len() == 5 && forall|v: i32| #[trigger] m.count(v) > 0 ==> die_ok(v)
}

/// The score of category `t` for the hand `m`.
pub open spec fn category_score(m: Multiset<i32>, t: ResultType) -> int {
    match t {
        ResultType::Ones => face_score(m, 1),
        ResultType::Twos => face_score(m, 2),
        ResultType::Threes => face_score(m, 3),
        ResultType::Fours => face_score(m, 4),
        ResultType::Fives => face_score(m, 5),
        ResultType::Sixes => face_score(m, 6),
        ResultType::Pair => pair_score(m),
        ResultType::TwoPairs => two_pairs_score(m),
        ResultType::ThreeOfAKind => three_of_a_kind_score(m),
        ResultType::FourOfAKind => four_of_a_kind_score(m),
        ResultType::SmallStraight => small_straight_score(m),
        ResultType::LargeStraight => large_straight_score(m),
        ResultType::FullHouse => full_house_score(m),
        ResultType::Chance => chance_score(m),
        ResultType::Yatsy => yatsy_score(m),
    }
}

/// The evaluator's entry for category `t`: one element when the score
/// is positive, nothing when it is zero.
pub open spec fn entry(m: Multiset<i32>, t: ResultType) -> Seq<DiceResult> {
    if category_score(m, t) > 0 {
        seq![(DiceResult { result_type: t, score: category_score(m, t) as i32 })]
    } else {
        Seq::empty()
    }
}

/// The evaluator's entries for the first `n` categories of the card,
/// in canonical order.
pub open spec fn results_prefix(m: Multiset<i32>, n: int) -> Seq<DiceResult>
    decreases n,
{
    if n <= 0 {
        Seq::empty()
    } else {
        results_prefix(m, n - 1) + entry(m, canonical_type(n - 1))
    }
}

/// Everything the evaluator reports for the hand `m`: the positive
/// scores of all fifteen categories, in canonical category order.
pub open spec fn results_spec(m: Multiset<i32>) -> Seq<DiceResult> {
    results_prefix(m, 15)
}

/// A well-formed hand models a multiset of five legal faces.
pub proof fn lemma_hand_model(d: DiceRoll)
    requires
        d.wf(),
    ensures
        is_hand(d.mset()),
{
    broadcast use vstd::seq_lib::group_to_multiset_ensures;

    assert(d.dice@.len() == 5);
    assert forall|v: i32| #[trigger] d.mset().count(v) > 0 implies die_ok(v) by {
        assert(d.dice@.contains(v));
        let i = choose|i: int| 0 <= i < 5 && d.dice@[i] == v;
        assert(die_ok(d.dice@[i]));
    }
}

/// The largest face with a given count lies between zero and the
/// search bound.
pub proof fn lemma_top_face_bounds(m: Multiset<i32>, k: i32, f: int)
    requires
        0 <= f,
    ensures
        0 <= top_face_with_count(m, k, f) <= f,
    decreases f,
{
    if f >= 1 {
        lemma_top_face_bounds(m, k, f - 1);
    }
}

/// The largest face with an exact count lies between zero and the
/// search bound.
pub proof fn lemma_exact_face_bounds(m: Multiset<i32>, k: i32, f: int)
    requires
        0 <= f,
    ensures
        0 <= exact_count_face(m, k, f) <= f,
    decreases f,
{
    if f >= 1 {
        lemma_exact_face_bounds(m, k, f - 1);
    }
}

/// The number of paired faces and their sum are bounded by the faces
/// searched.
pub proof fn lemma_pair_sums_bounds(m: Multiset<i32>, f: int)
    requires
        0 <= f <= 6,
    ensures
        0 <= num_pairs_upto(m, f) <= f,
        0 <= pair_faces_sum_upto(m, f) <= 6 * f,
    decreases f,
{
    if f >= 1 {
        lemma_pair_sums_bounds(m, f - 1);
    }
}

/// Every category score of a five-die hand lies between zero and one
/// hundred and five.
pub proof fn lemma_category_score_bounds(m: Multiset<i32>, t: ResultType)
    requires
        is_hand(m),
    ensures
        0 <= category_score(m, t) <= 105,
{
    broadcast use vstd::multiset::group_multiset_axioms;

    lemma_top_face_bounds(m, 2, 6);
    lemma_top_face_bounds(m, 3, 6);
    lemma_top_face_bounds(m, 4, 6);
    lemma_exact_face_bounds(m, 2, 6);
    lemma_exact_face_bounds(m, 3, 6);
    lemma_pair_sums_bounds(m, 6);
    assert(m.count(1) <= 5 && m.count(2) <= 5 && m.count(3) <= 5 && m.count(4) <= 5 && m.count(5)
        <= 5 && m.count(6) <= 5);
}

/// Order invariance: two hands made of the same dice, in whatever
/// order, are evaluated identically.
pub proof fn lemma_evaluate_order_invariant(a: DiceRoll, b: DiceRoll)
    requires
        a.dice@.to_multiset() == b.dice@.to_multiset(),
    ensures
        results_spec(a.mset()) == results_spec(b.mset()),
{
}

/// The upper-section row a face belongs to.
pub open spec fn upper_category(f: i32) -> ResultType {
    if f == 1 {
        ResultType::Ones
    } else if f == 2 {
        ResultType::Twos
    } else if f == 3 {
        ResultType::Threes
    } else if f == 4 {
        ResultType::Fours
    } else if f == 5 {
        ResultType::Fives
    } else {
        ResultType::Sixes
    }
}

/// Upper-section consistency: for every face, the score of its row is
/// the face times the number of dice showing it.
pub proof fn lemma_upper_section_consistency(m: Multiset<i32>, f: i32)
    requires
        die_ok(f),
    ensures
        category_score(m, upper_category(f)) == f * m.count(f),
{
}

/// Non-negativity: no category ever scores below zero.
pub proof fn lemma_scores_nonnegative(m: Multiset<i32>)
    ensures
        forall|t: ResultType| #[trigger] category_score(m, t) >= 0,
{
    lemma_top_face_bounds(m, 2, 6);
    lemma_top_face_bounds(m, 3, 6);
    lemma_top_face_bounds(m, 4, 6);
    lemma_exact_face_bounds(m, 2, 6);
    lemma_exact_face_bounds(m, 3, 6);
    lemma_pair_sums_bounds(m, 6);
}

/// The evaluator's output up to here: strictly increasing category
/// positions all below `b`, and only positive scores.
spec fn ordered_below(s: Seq<DiceResult>, b: int) -> bool {
    &&& forall|i: int, j: int|
        0 <= i < j < s.len() ==> type_index(#[trigger] s[i].result_type) < type_index(
            #[trigger] s[j].result_type,
        )
    &&& forall|i: int| 0 <= i < s.len() ==> type_index((#[trigger] s[i]).result_type) < b
    &&& forall|i: int| 0 <= i < s.len() ==> (#[trigger] s[i]).score > 0
}

/// Appending one category's entry keeps the output ordered and
/// positive.
proof fn lemma_entry_step(s: Seq<DiceResult>, b: int, m: Multiset<i32>, t: ResultType)
    requires
        ordered_below(s, b),
        b <= type_index(t),
        0 <= category_score(m, t) <= 105,
    ensures
        ordered_below(s + entry(m, t), type_index(t) + 1),
{
    let e = s + entry(m, t);
    if category_score(m, t) > 0 {
        assert(e.len() == s.len() + 1);
        assert(e[s.len() as int] == (DiceResult { result_type: t, score: category_score(m, t) as i32 }));
        assert(forall|i: int| 0 <= i < s.len() ==> e[i] == s[i]);
    } else {
        assert(e =~= s);
    }
}

/// Each step of the evaluation keeps the output ordered and
/// positive.
proof fn lemma_prefix_canonical(m: Multiset<i32>, n: int)
    requires
        is_hand(m),
        0 <= n <= 15,
    ensures
        ordered_below(results_prefix(m, n), n),
    decreases n,
{
    if n > 0 {
        lemma_prefix_canonical(m, n - 1);
        lemma_category_score_bounds(m, canonical_type(n - 1));
        assert(type_index(canonical_type(n - 1)) == n - 1);
        lemma_entry_step(results_prefix(m, n - 1), n - 1, m, canonical_type(n - 1));
    }
}

/// Zero-suppression and canonical order: the evaluator reports no
/// zero score, and reports categories in strict card order.
pub proof fn lemma_results_canonical(m: Multiset<i32>)
    requires
        is_hand(m),
    ensures
        forall|i: int| 0 <= i < results_spec(m).len() ==> (#[trigger] results_spec(m)[i]).score > 0,
        forall|i: int, j: int|
            0 <= i < j < results_spec(m).len() ==> type_index(
                #[trigger] results_spec(m)[i].result_type,
            ) < type_index(#[trigger] results_spec(m)[j].result_type),
{
    lemma_prefix_canonical(m, 15);
}

/// The category at position `i` of the card.
pub fn type_at(i: usize) -> (t: ResultType)
    requires
        i < 15,
    ensures
        t == canonical_type(i as int),
{
    if i == 0 {
        ResultType::Ones
    } else if i == 1 {
        ResultType::Twos
    } else if i == 2 {
        ResultType::Threes
    } else if i == 3 {
        ResultType::Fours
    } else if i == 4 {
        ResultType::Fives
    } else if i == 5 {
        ResultType::Sixes
    } else if i == 6 {
        ResultType::Pair
    } else if i == 7 {
        ResultType::TwoPairs
    } else if i == 8 {
        ResultType::ThreeOfAKind
    } else if i == 9 {
        ResultType::FourOfAKind
    } else if i == 10 {
        ResultType::SmallStraight
    } else if i == 11 {
        ResultType::LargeStraight
    } else if i == 12 {
        ResultType::FullHouse
    } else if i == 13 {
        ResultType::Chance
    } else {
        ResultType::Yatsy
    }
}

/// The score the hand yields for one category.
pub fn score_for(dice: &DiceRoll, t: ResultType) -> (r: i32)
    requires
        dice.wf(),
    ensures
        r == category_score(dice.mset(), t),
{
    match t {
        ResultType::Ones => dice.ones(),
        ResultType::Twos => dice.twos(),
        ResultType::Threes => dice.threes(),
        ResultType::Fours => dice.fours(),
        ResultType::Fives => dice.fives(),
        ResultType::Sixes => dice.sixes(),
        ResultType::Pair => dice.pair(),
        ResultType::TwoPairs => dice.two_pairs(),
        ResultType::ThreeOfAKind => dice.three_of_a_kind(),
        ResultType::FourOfAKind => dice.four_of_a_kind(),
        ResultType::SmallStraight => dice.small_straight(),
        ResultType::LargeStraight => dice.large_straight(),
        ResultType::FullHouse => dice.full_house(),
        ResultType::Chance => dice.chance(),
        ResultType::Yatsy => dice.yatsy(),
    }
}

/// All category scores for one hand, keeping only the categories that
/// score: what the player may claim, in canonical order.
pub fn get_results(dice: DiceRoll) -> (results: Vec<DiceResult>)
    requires
        dice.wf(),
    ensures
        results@ == results_spec(dice.mset()),
        is_hand(dice.mset()),
{
    proof {
        lemma_hand_model(dice);
    }
    let ghost m = dice.mset();
    let mut results = Vec::<DiceResult>::new();
    let mut i: usize = 0;
    while i < 15
        invariant
            dice.wf(),
            m == dice.mset(),
            0 <= i <= 15,
            results@ == results_prefix(m, i as int),
        decreases 15 - i,
    {
        let t = type_at(i);
        let sc = score_for(&dice, t);
        if sc > 0 {
            results.push(DiceResult { result_type: t, score: sc });
        }
        assert(results@ =~= results_prefix(m, i as int) + entry(m, canonical_type(i as int)));
        i = i + 1;
    }
    results
}

} // verus!
