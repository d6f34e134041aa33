use rand::Rng;
use vstd::multiset::Multiset;
use vstd::prelude::*;

verus! {

/// A legal die face: an integer from one to six.
pub open spec fn die_ok(v: i32) -> bool {
    1 <= v <= 6
}

/// Five six-sided dice, in roll order.
#[derive(Clone, Copy)]
pub struct DiceRoll {
    pub dice: [i32; 5],
}

/// Relies on rand::Rng::gen_range: returns a value drawn from the
/// half-open range [1, 7), hence a legal die face.
#[verifier::external_body]
fn roll_die() -> (r: i32)
    ensures
        die_ok(r),
{
    rand::thread_rng().gen_range(1..7)
}

/// The number of dice among the five that show face `v`, written out
/// die by die.
pub open spec fn count5(s: Seq<i32>, v: i32) -> int {
    (if s[0] == v {
        1int
    } else {
        0int
    }) + (if s[1] == v {
        1int
    } else {
        0int
    }) + (if s[2] == v {
        1int
    } else {
        0int
    }) + (if s[3] == v {
        1int
    } else {
        0int
    }) + (if s[4] == v {
        1int
    } else {
        0int
    })
}

/// For a five-die sequence, the multiset count of every face is the
/// die-by-die count.
pub proof fn lemma_count5(s: Seq<i32>)
    requires
        s.len() == 5,
    ensures
        forall|v: i32| #[trigger] s.to_multiset().count(v) == count5(s, v),
{
    broadcast use vstd::seq_lib::group_to_multiset_ensures;
    broadcast use vstd::multiset::group_multiset_axioms;
    broadcast use vstd::multiset::group_multiset_properties;

    let s0 = Seq::<i32>::empty();
    let s1 = s0.push(s[0]);
    let s2 = s1.push(s[1]);
    let s3 = s2.push(s[2]);
    let s4 = s3.push(s[3]);
    let s5 = s4.push(s[4]);
    assert(s5 =~= s);
    assert forall|v: i32| #[trigger] s.to_multiset().count(v) == count5(s, v) by {
        assert(s0.to_multiset().count(v) == 0);
        assert(s1.to_multiset() =~= s0.to_multiset().insert(s[0]));
        assert(s2.to_multiset() =~= s1.to_multiset().insert(s[1]));
        assert(s3.to_multiset() =~= s2.to_multiset().insert(s[2]));
        assert(s4.to_multiset() =~= s3.to_multiset().insert(s[3]));
        assert(s5.to_multiset() =~= s4.to_multiset().insert(s[4]));
    }
}

/// The score of the upper-section row for face `f`: the face times the
/// number of dice showing it.
pub open spec fn face_score(m: Multiset<i32>, f: i32) -> int {
    f * m.count(f)
}

/// The largest face no greater than `f` that appears at least `k`
/// times; zero when there is none.
pub open spec fn top_face_with_count(m: Multiset<i32>, k: i32, f: int) -> int
    decreases f,
{
    if f < 1 {
        0
    } else if m.count(f as i32) >= k {
        f
    } else {
        top_face_with_count(m, k, f - 1)
    }
}

/// The largest face no greater than `f` that appears exactly `k`
/// times; zero when there is none.
pub open spec fn exact_count_face(m: Multiset<i32>, k: i32, f: int) -> int
    decreases f,
{
    if f < 1 {
        0
    } else if m.count(f as i32) == k {
        f
    } else {
        exact_count_face(m, k, f - 1)
    }
}

/// How many faces no greater than `f` appear at least twice.
pub open spec fn num_pairs_upto(m: Multiset<i32>, f: int) -> int
    decreases f,
{
    if f < 1 {
        0
    } else {
        num_pairs_upto(m, f - 1) + (if m.count(f as i32) >= 2 {
            1int
        } else {
            0int
        })
    }
}

/// The sum of the faces no greater than `f` that appear at least twice.
pub open spec fn pair_faces_sum_upto(m: Multiset<i32>, f: int) -> int
    decreases f,
{
    if f < 1 {
        0
    } else {
        pair_faces_sum_upto(m, f - 1) + (if m.count(f as i32) >= 2 {
            f
        } else {
            0int
        })
    }
}

/// Twice the largest face that appears at least twice; zero without a
/// pair.
pub open spec fn pair_score(m: Multiset<i32>) -> int {
    2 * top_face_with_count(m, 2, 6)
}

/// Twice the sum of the two paired faces, exactly when two distinct
/// faces each appear at least twice.
pub open spec fn two_pairs_score(m: Multiset<i32>) -> int {
    if num_pairs_upto(m, 6) == 2 {
        2 * pair_faces_sum_upto(m, 6)
    } else {
        0
    }
}

/// Three times the largest face that appears at least three times;
/// zero without one.
pub open spec fn three_of_a_kind_score(m: Multiset<i32>) -> int {
    3 * top_face_with_count(m, 3, 6)
}

/// Four times the largest face that appears at least four times; zero
/// without one.
pub open spec fn four_of_a_kind_score(m: Multiset<i32>) -> int {
    4 * top_face_with_count(m, 4, 6)
}

/// Fifteen points when the hand is exactly one through five.
pub open spec fn small_straight_score(m: Multiset<i32>) -> int {
    if m.count(1) == 1 && m.count(2) == 1 && m.count(3) == 1 && m.count(4) == 1 && m.count(5)
        == 1 {
        15
    } else {
        0
    }
}

/// Twenty points when the hand is exactly two through six.
pub open spec fn large_straight_score(m: Multiset<i32>) -> int {
    if m.count(2) == 1 && m.count(3) == 1 && m.count(4) == 1 && m.count(5) == 1 && m.count(6)
        == 1 {
        20
    } else {
        0
    }
}

/// Three times the tripled face plus twice the paired face, exactly
/// when one face appears three times and another exactly twice.
pub open spec fn full_house_score(m: Multiset<i32>) -> int {
    if exact_count_face(m, 3, 6) != 0 && exact_count_face(m, 2, 6) != 0 {
        3 * exact_count_face(m, 3, 6) + 2 * exact_count_face(m, 2, 6)
    } else {
        0
    }
}

/// The sum of all five dice, taken face by face.
pub open spec fn chance_score(m: Multiset<i32>) -> int {
    face_score(m, 1) + face_score(m, 2) + face_score(m, 3) + face_score(m, 4) + face_score(m, 5)
        + face_score(m, 6)
}

/// The sum of the five dice, die by die.
pub open spec fn dice_sum(s: Seq<i32>) -> int {
    s[0] + s[1] + s[2] + s[3] + s[4]
}

/// What one die adds to the chance score, face by face.
spec fn die_contrib(x: i32) -> int {
    1 * (if x == 1 {
        1int
    } else {
        0int
    }) + 2 * (if x == 2 {
        1int
    } else {
        0int
    }) + 3 * (if x == 3 {
        1int
    } else {
        0int
    }) + 4 * (if x == 4 {
        1int
    } else {
        0int
    }) + 5 * (if x == 5 {
        1int
    } else {
        0int
    }) + 6 * (if x == 6 {
        1int
    } else {
        0int
    })
}

/// For a legal hand, the face-by-face chance score is exactly the sum
/// of the five dice.
#[verifier::rlimit(100)]
pub proof fn lemma_chance_is_dice_sum(d: DiceRoll)
    requires
        d.wf(),
    ensures
        chance_score(d.mset()) == dice_sum(d.dice@),
{
    let s = d.dice@;
    lemma_count5(s);
    assert(face_score(d.mset(), 1) == 1 * count5(s, 1));
    assert(face_score(d.mset(), 2) == 2 * count5(s, 2));
    assert(face_score(d.mset(), 3) == 3 * count5(s, 3));
    assert(face_score(d.mset(), 4) == 4 * count5(s, 4));
    assert(face_score(d.mset(), 5) == 5 * count5(s, 5));
    assert(face_score(d.mset(), 6) == 6 * count5(s, 6));
    assert(die_contrib(s[0]) == s[0]);
    assert(die_contrib(s[1]) == s[1]);
    assert(die_contrib(s[2]) == s[2]);
    assert(die_contrib(s[3]) == s[3]);
    assert(die_contrib(s[4]) == s[4]);
    assert(chance_score(d.mset()) == die_contrib(s[0]) + die_contrib(s[1]) + die_contrib(s[2])
        + die_contrib(s[3]) + die_contrib(s[4]));
}

/// Fifty points when all five dice show the same face.
pub open spec fn yatsy_score(m: Multiset<i32>) -> int {
    if exists|f: i32| die_ok(f) && m.count(f) == 5 {
        50
    } else {
        0
    }
}

impl DiceRoll {
    /// Every die shows a face from one to six.
    pub open spec fn wf(&self) -> bool {
        forall|i: int| 0 <= i < 5 ==> die_ok(#[trigger] self.dice@[i])
    }

    /// The hand as an unordered multiset of faces: the model every
    /// scoring rule is stated over, so the order of the dice cannot
    /// influence a score.
    pub open spec fn mset(&self) -> Multiset<i32> {
        self.dice@.to_multiset()
    }

    /// Roll five fresh dice.
    pub fn new() -> (r: DiceRoll)
        ensures
            r.wf(),
    {
        let d = [roll_die(), roll_die(), roll_die(), roll_die(), roll_die()];
        DiceRoll { dice: d }
    }

    /// Roll the dice at the listed positions again; the other dice are
    /// kept. Out-of-range positions are ignored. The hand itself is
    /// left as it was: the new hand is returned.
    pub fn reroll(&mut self, indices: Vec<usize>) -> (r: DiceRoll)
        requires
            old(self).wf(),
        ensures
            *final(self) == *old(self),
            r.wf(),
            forall|i: int|
                0 <= i < 5 && !indices@.contains(i as usize) ==> r.dice@[i] == old(self).dice@[i],
    {
        let d0 = if contains_index(&indices, 0) {
            roll_die()
        } else {
            self.dice[0]
        };
        let d1 = if contains_index(&indices, 1) {
            roll_die()
        } else {
            self.dice[1]
        };
        let d2 = if contains_index(&indices, 2) {
            roll_die()
        } else {
            self.dice[2]
        };
        let d3 = if contains_index(&indices, 3) {
            roll_die()
        } else {
            self.dice[3]
        };
        let d4 = if contains_index(&indices, 4) {
            roll_die()
        } else {
            self.dice[4]
        };
        DiceRoll { dice: [d0, d1, d2, d3, d4] }
    }

    /// How many dice show face `value`.
    pub fn get_count_for_value(&self, value: i32) -> (c: i32)
        ensures
            c == self.mset().count(value),
            0 <= c <= 5,
    {
        proof {
            lemma_count5(self.dice@);
        }
        let mut c: i32 = 0;
        if self.dice[0] == value {
            c = c + 1;
        }
        if self.dice[1] == value {
            c = c + 1;
        }
        if self.dice[2] == value {
            c = c + 1;
        }
        if self.dice[3] == value {
            c = c + 1;
        }
        if self.dice[4] == value {
            c = c + 1;
        }
        c
    }

    /// The sum of the dice showing face `value`.
    pub fn get_value_sum(&self, value: i32) -> (r: i32)
        requires
            die_ok(value),
        ensures
            r == face_score(self.mset(), value),
            0 <= r <= 30,
    {
        let c = self.get_count_for_value(value);
        proof {
            assert(0 <= value * c <= 30) by (nonlinear_arith)
                requires
                    1 <= value <= 6,
                    0 <= c <= 5,
            ;
        }
        value * c
    }

    /// The largest face that appears at least `count` times; zero when
    /// there is none.
    pub fn get_value_for_count(&self, count: i32) -> (r: i32)
        ensures
            r == top_face_with_count(self.mset(), count, 6),
            0 <= r <= 6,
    {
        let mut f: i32 = 6;
        while f >= 1
            invariant
                0 <= f <= 6,
                top_face_with_count(self.mset(), count, 6) == top_face_with_count(
                    self.mset(),
                    count,
                    f as int,
                ),
            decreases f,
        {
            if self.get_count_for_value(f) >= count {
                return f;
            }
            f = f - 1;
        }
        0
    }

    /// Upper-section score for ones.
    pub fn ones(&self) -> (r: i32)
        ensures
            r == face_score(self.mset(), 1),
    {
        self.get_value_sum(1)
    }

    /// Upper-section score for twos.
    pub fn twos(&self) -> (r: i32)
        ensures
            r == face_score(self.mset(), 2),
    {
        self.get_value_sum(2)
    }

    /// Upper-section score for threes.
    pub fn threes(&self) -> (r: i32)
        ensures
            r == face_score(self.mset(), 3),
    {
        self.get_value_sum(3)
    }

    /// Upper-section score for fours.
    pub fn fours(&self) -> (r: i32)
        ensures
            r == face_score(self.mset(), 4),
    {
        self.get_value_sum(4)
    }

    /// Upper-section score for fives.
    pub fn fives(&self) -> (r: i32)
        ensures
            r == face_score(self.mset(), 5),
    {
        self.get_value_sum(5)
    }

    /// Upper-section score for sixes.
    pub fn sixes(&self) -> (r: i32)
        ensures
            r == face_score(self.mset(), 6),
    {
        self.get_value_sum(6)
    }

    /// Twice the largest paired face; zero without a pair.
    pub fn pair(&self) -> (r: i32)
        ensures
            r == pair_score(self.mset()),
    {
        self.get_value_for_count(2) * 2
    }

    /// Twice the sum of the two paired faces, when exactly two
    /// distinct faces are paired; zero otherwise.
    pub fn two_pairs(&self) -> (r: i32)
        ensures
            r == two_pairs_score(self.mset()),
    {
        let mut n: i32 = 0;
        let mut sum: i32 = 0;
        let mut f: i32 = 1;
        while f <= 6
            invariant
                1 <= f <= 7,
                n == num_pairs_upto(self.mset(), f - 1),
                sum == pair_faces_sum_upto(self.mset(), f - 1),
                0 <= n <= f - 1,
                0 <= sum <= 6 * (f - 1),
            decreases 7 - f,
        {
            if self.get_count_for_value(f) >= 2 {
                n = n + 1;
                sum = sum + f;
            }
            f = f + 1;
        }
        if n == 2 {
            sum * 2
        } else {
            0
        }
    }

    /// Three of a kind: three times the largest face appearing at
    /// least three times.
    pub fn three_of_a_kind(&self) -> (r: i32)
        ensures
            r == three_of_a_kind_score(self.mset()),
    {
        self.get_value_for_count(3) * 3
    }

    /// Four of a kind: four times the largest face appearing at least
    /// four times.
    pub fn four_of_a_kind(&self) -> (r: i32)
        ensures
            r == four_of_a_kind_score(self.mset()),
    {
        self.get_value_for_count(4) * 4
    }

    /// Fifteen points for the hand one through five; zero otherwise.
    pub fn small_straight(&self) -> (r: i32)
        ensures
            r == small_straight_score(self.mset()),
    {
        if self.get_count_for_value(1) == 1 && self.get_count_for_value(2) == 1
            && self.get_count_for_value(3) == 1 && self.get_count_for_value(4) == 1
            && self.get_count_for_value(5) == 1 {
            15
        } else {
            0
        }
    }

    /// Twenty points for the hand two through six; zero otherwise.
    pub fn large_straight(&self) -> (r: i32)
        ensures
            r == large_straight_score(self.mset()),
    {
        if self.get_count_for_value(2) == 1 && self.get_count_for_value(3) == 1
            && self.get_count_for_value(4) == 1 && self.get_count_for_value(5) == 1
            && self.get_count_for_value(6) == 1 {
            20
        } else {
            0
        }
    }

    /// Full house: a tripled face and a distinct paired face.
    pub fn full_house(&self) -> (r: i32)
        ensures
            r == full_house_score(self.mset()),
    {
        let mut triple: i32 = 0;
        let mut double: i32 = 0;
        let mut f: i32 = 1;
        while f <= 6
            invariant
                1 <= f <= 7,
                triple == exact_count_face(self.mset(), 3, f - 1),
                double == exact_count_face(self.mset(), 2, f - 1),
                0 <= triple <= 6,
                0 <= double <= 6,
            decreases 7 - f,
        {
            let c = self.get_count_for_value(f);
            if c == 3 {
                triple = f;
            } else if c == 2 {
                double = f;
            }
            f = f + 1;
        }
        if triple != 0 && double != 0 {
            triple * 3 + double * 2
        } else {
            0
        }
    }

    /// The sum of all five dice.
    pub fn chance(&self) -> (r: i32)
        requires
            self.wf(),
        ensures
            r == chance_score(self.mset()),
    {
        self.get_value_sum(1) + self.get_value_sum(2) + self.get_value_sum(3) + self.get_value_sum(
            4,
        ) + self.get_value_sum(5) + self.get_value_sum(6)
    }

    /// Fifty points when all five dice show the same face.
    pub fn yatsy(&self) -> (r: i32)
        requires
            self.wf(),
        ensures
            r == yatsy_score(self.mset()),
    {
        proof {
            lemma_count5(self.dice@);
        }
        let c = self.get_count_for_value(self.dice[0]);
        if c == 5 {
            proof {
                assert(die_ok(self.dice@[0]) && self.mset().count(self.dice@[0]) == 5);
            }
            50
        } else {
            proof {
                assert(forall|f: i32| #[trigger] self.mset().count(f) == 5 ==> f == self.dice@[0]);
            }
            0
        }
    }
}

/// Whether the list of positions holds `x`.
fn contains_index(v: &Vec<usize>, x: usize) -> (b: bool)
    ensures
        b == v@.contains(x),
{
    let mut k: usize = 0;
    while k < v.len()
        invariant
            0 <= k <= v@.len(),
            forall|j: int| 0 <= j < k ==> v@[j] != x,
        decreases v@.len() - k,
    {
        if v[k] == x {
            return true;
        }
        k = k + 1;
    }
    false
}

} // verus!
