use crate::dice_result::DiceResult;
use crate::dice_result::ResultType;
use crate::dice_result::canonical_type;
use crate::dice_result::type_at;
use crate::dice_result::type_index;
use vstd::prelude::*;
use vstd::set_lib::lemma_int_range;
use vstd::set_lib::set_int_range;

verus! {

/// One scorecard row: a category, the score standing against it, and
/// whether the row was struck.
#[derive(Debug, Copy, Clone)]
pub struct Score {
    pub score_type: ResultType,
    pub score: i32,
    pub striked: bool,
}

impl Score {
    /// A row is resolved once it was struck or a positive score was
    /// claimed on it.
    pub open spec fn scored_spec(&self) -> bool {
        self.striked || self.score != 0
    }

    /// Whether the row is resolved (claimed or struck) rather than
    /// open.
    pub fn scored(&self) -> (r: bool)
        ensures
            r == self.scored_spec(),
    {
        self.striked || self.score != 0
    }
}

/// A valid card: fifteen rows in canonical category order, every score
/// non-negative, and struck rows carrying no score.
pub open spec fn slots_wf(s: Seq<Score>) -> bool {
    &&& s.len() == 15
    &&& forall|i: int| 0 <= i < 15 ==> (#[trigger] s[i]).score_type == canonical_type(i)
    &&& forall|i: int| 0 <= i < 15 ==> (#[trigger] s[i]).score >= 0
    &&& forall|i: int| 0 <= i < 15 ==> ((#[trigger] s[i]).striked ==> s[i].score == 0)
}

/// A fresh card: every row open.
pub open spec fn initial_slots() -> Seq<Score> {
    Seq::new(15, |i: int| Score { score_type: canonical_type(i), score: 0, striked: false })
}

/// Whether the row for category `t` is still open.
pub open spec fn slot_open(s: Seq<Score>, t: ResultType) -> bool {
    !s[type_index(t)].scored_spec()
}

/// The card after claiming score `n` for category `t`: the row is
/// written when it is open, and nothing changes when it is not.
pub open spec fn claim_slots(s: Seq<Score>, t: ResultType, n: i32) -> Seq<Score> {
    if slot_open(s, t) {
        s.update(type_index(t), (Score { score_type: t, score: n, striked: false }))
    } else {
        s
    }
}

/// The card after striking category `t`: the row is struck when it is
/// open, and nothing changes when it is not.
pub open spec fn strike_slots(s: Seq<Score>, t: ResultType) -> Seq<Score> {
    if slot_open(s, t) {
        s.update(type_index(t), (Score { score_type: t, score: 0, striked: true }))
    } else {
        s
    }
}

/// Every row of the card is resolved.
pub open spec fn slots_complete(s: Seq<Score>) -> bool {
    forall|i: int| 0 <= i < 15 ==> (#[trigger] s[i]).scored_spec()
}

/// The sum of the scores of rows `lo` up to but not including `hi`.
pub open spec fn sum_scores(s: Seq<Score>, lo: int, hi: int) -> int
    decreases hi - lo,
{
    if lo >= hi {
        0
    } else {
        s[lo].score + sum_scores(s, lo + 1, hi)
    }
}

/// The claimed sum of the six upper-section rows.
pub open spec fn upper_sum(s: Seq<Score>) -> int {
    sum_scores(s, 0, 6)
}

/// Fifty bonus points when the upper section reaches sixty-three.
pub open spec fn bonus_spec(s: Seq<Score>) -> int {
    if upper_sum(s) >= 63 {
        50
    } else {
        0
    }
}

/// The card's total: every claimed score plus the bonus; struck rows
/// contribute nothing.
pub open spec fn total_spec(s: Seq<Score>) -> int {
    sum_scores(s, 0, 15) + bonus_spec(s)
}

/// The categories of rows `0` up to `n` that are still open, in card
/// order.
pub open spec fn avail_prefix(s: Seq<Score>, n: int) -> Seq<ResultType>
    decreases n,
{
    if n <= 0 {
        Seq::empty()
    } else {
        avail_prefix(s, n - 1) + (if s[n - 1].scored_spec() {
            Seq::<ResultType>::empty()
        } else {
            seq![s[n - 1].score_type]
        })
    }
}

/// Extending a row-score sum by one row adds that row's score.
pub proof fn lemma_sum_extend(s: Seq<Score>, lo: int, hi: int)
    requires
        lo <= hi,
    ensures
        sum_scores(s, lo, hi + 1) == sum_scores(s, lo, hi) + s[hi].score,
    decreases hi - lo,
{
    if lo < hi {
        lemma_sum_extend(s, lo + 1, hi);
    } else {
        assert(sum_scores(s, hi + 1, hi + 1) == 0);
    }
}

/// The scorecard: one row per category, in canonical order.
pub struct ScoreCard {
    pub scores: Vec<Score>,
}

impl ScoreCard {
    /// The card is valid.
    pub open spec fn wf(&self) -> bool {
        slots_wf(self.scores@)
    }

    /// Every row is resolved.
    pub open spec fn complete_spec(&self) -> bool {
        slots_complete(self.scores@)
    }

    /// A fresh card with every row open.
    pub fn new() -> (card: ScoreCard)
        ensures
            card.wf(),
            card.scores@ == initial_slots(),
    {
        let mut v: Vec<Score> = Vec::new();
        let mut i: usize = 0;
        while i < 15
            invariant
                0 <= i <= 15,
                v@.len() == i,
                forall|j: int| 0 <= j < i ==> v@[j] == initial_slots()[j],
            decreases 15 - i,
        {
            v.push(Score { score_type: type_at(i), score: 0, striked: false });
            i = i + 1;
        }
        assert(v@ =~= initial_slots());
        ScoreCard { scores: v }
    }

    /// Whether the whole card is resolved.
    pub fn is_complete(&self) -> (r: bool)
        requires
            self.wf(),
        ensures
            r == self.complete_spec(),
    {
        let mut i: usize = 0;
        while i < 15
            invariant
                self.wf(),
                0 <= i <= 15,
                forall|j: int| 0 <= j < i ==> (#[trigger] self.scores@[j]).scored_spec(),
            decreases 15 - i,
        {
            if !self.scores[i].scored() {
                return false;
            }
            i = i + 1;
        }
        true
    }

    /// The categories still open for a claim or a strike, in card
    /// order.
    pub fn get_available_types(&self) -> (r: Vec<ResultType>)
        requires
            self.wf(),
        ensures
            r@ == avail_prefix(self.scores@, 15),
    {
        let mut r: Vec<ResultType> = Vec::new();
        let mut i: usize = 0;
        while i < 15
            invariant
                self.wf(),
                0 <= i <= 15,
                r@ == avail_prefix(self.scores@, i as int),
            decreases 15 - i,
        {
            if !self.scores[i].scored() {
                let t = self.scores[i].score_type;
                r.push(t);
            }
            assert(r@ =~= avail_prefix(self.scores@, i as int + 1));
            i = i + 1;
        }
        r
    }

    /// Claim a result: when the category is open its row takes the
    /// score, and when it is not the call changes nothing.
    pub fn add_result(&mut self, result: DiceResult)
        requires
            old(self).wf(),
            result.score >= 0,
        ensures
            final(self).wf(),
            final(self).scores@ == claim_slots(
                old(self).scores@,
                result.result_type,
                result.score,
            ),
    {
        let idx = result.result_type.index();
        if self.scores[idx].scored() {
            return ;
        }
        self.scores[idx] = Score {
            score_type: result.result_type,
            score: result.score,
            striked: false,
        };
    }

    /// Strike an open category: its row is closed and stands at zero
    /// for good.
    pub fn strike(&mut self, result_type: ResultType)
        requires
            old(self).wf(),
            slot_open(old(self).scores@, result_type),
        ensures
            final(self).wf(),
            final(self).scores@ == strike_slots(old(self).scores@, result_type),
    {
        let idx = result_type.index();
        self.scores[idx] = Score { score_type: result_type, score: 0, striked: true };
    }

    /// The six upper-section rows.
    pub fn get_upper_scores(&self) -> (r: Vec<Score>)
        requires
            self.wf(),
        ensures
            r@ == self.scores@.subrange(0, 6),
    {
        let mut r: Vec<Score> = Vec::new();
        let mut i: usize = 0;
        while i < 6
            invariant
                self.wf(),
                0 <= i <= 6,
                r@.len() == i,
                forall|j: int| 0 <= j < i ==> r@[j] == self.scores@[j],
            decreases 6 - i,
        {
            let s = self.scores[i];
            r.push(s);
            i = i + 1;
        }
        assert(r@ =~= self.scores@.subrange(0, 6));
        r
    }

    /// The nine lower-section rows.
    pub fn get_lower_scores(&self) -> (r: Vec<Score>)
        requires
            self.wf(),
        ensures
            r@ == self.scores@.subrange(6, 15),
    {
        let mut r: Vec<Score> = Vec::new();
        let mut i: usize = 6;
        while i < 15
            invariant
                self.wf(),
                6 <= i <= 15,
                r@.len() == i - 6,
                forall|j: int| 6 <= j < i ==> r@[j - 6] == self.scores@[j],
            decreases 15 - i,
        {
            let s = self.scores[i];
            r.push(s);
            i = i + 1;
        }
        assert(r@ =~= self.scores@.subrange(6, 15));
        r
    }

    /// The upper-section bonus the card currently earns: fifty when
    /// the six upper rows hold sixty-three or more, zero otherwise.
    pub fn get_bonus(&self) -> (r: i32)
        requires
            self.wf(),
        ensures
            r == bonus_spec(self.scores@),
    {
        let mut acc: i64 = 0;
        let mut i: usize = 0;
        while i < 6
            invariant
                self.wf(),
                0 <= i <= 6,
                acc == sum_scores(self.scores@, 0, i as int),
                0 <= acc <= (i as i64) * 2147483647,
            decreases 6 - i,
        {
            proof {
                lemma_sum_extend(self.scores@, 0, i as int);
            }
            acc = acc + (self.scores[i].score as i64);
            i = i + 1;
        }
        if acc >= 63 {
            50
        } else {
            0
        }
    }

    /// The card's total: all claimed scores plus the bonus.
    pub fn total(&self) -> (r: i64)
        requires
            self.wf(),
        ensures
            r == total_spec(self.scores@),
    {
        let bonus = self.get_bonus();
        let mut acc: i64 = 0;
        let mut i: usize = 0;
        while i < 15
            invariant
                self.wf(),
                0 <= i <= 15,
                acc == sum_scores(self.scores@, 0, i as int),
                0 <= acc <= (i as i64) * 2147483647,
            decreases 15 - i,
        {
            proof {
                lemma_sum_extend(self.scores@, 0, i as int);
            }
            acc = acc + (self.scores[i].score as i64);
            i = i + 1;
        }
        acc + (bonus as i64)
    }
}

/// Monotonicity: a row that is already claimed or struck is never
/// altered by any later claim or strike.
pub proof fn lemma_resolved_slot_stable(s: Seq<Score>, t: ResultType, n: i32, i: int)
    requires
        slots_wf(s),
        0 <= i < 15,
        s[i].scored_spec(),
    ensures
        claim_slots(s, t, n)[i] == s[i],
        strike_slots(s, t)[i] == s[i],
{
}

/// Bonus threshold: the total is the claimed sum plus fifty exactly
/// when the upper section holds sixty-three or more, and the claimed
/// sum alone otherwise.
pub proof fn lemma_bonus_threshold(s: Seq<Score>)
    ensures
        upper_sum(s) >= 63 <==> total_spec(s) == sum_scores(s, 0, 15) + 50,
        upper_sum(s) < 63 <==> total_spec(s) == sum_scores(s, 0, 15),
{
}

/// One claim-or-strike move against the card.
pub enum CardOp {
    Claim(ResultType, i32),
    Strike(ResultType),
}

/// The category a move resolves.
pub open spec fn op_category(op: CardOp) -> ResultType {
    match op {
        CardOp::Claim(t, _) => t,
        CardOp::Strike(t) => t,
    }
}

/// A move that resolves its row: a strike, or a claim of a positive
/// score.
pub open spec fn op_positive(op: CardOp) -> bool {
    match op {
        CardOp::Claim(_, n) => n > 0,
        CardOp::Strike(_) => true,
    }
}

/// The card after one move.
pub open spec fn apply_op(s: Seq<Score>, op: CardOp) -> Seq<Score> {
    match op {
        CardOp::Claim(t, n) => claim_slots(s, t, n),
        CardOp::Strike(t) => strike_slots(s, t),
    }
}

/// The card after a sequence of moves, applied in order.
pub open spec fn apply_ops(s: Seq<Score>, ops: Seq<CardOp>) -> Seq<Score>
    decreases ops.len(),
{
    if ops.len() == 0 {
        s
    } else {
        apply_ops(apply_op(s, ops[0]), ops.drop_first())
    }
}

/// A category is determined by its position on the card.
proof fn lemma_type_roundtrip()
    ensures
        forall|t: ResultType|
            canonical_type(#[trigger] type_index(t)) == t && 0 <= type_index(t) < 15,
{
}

/// One resolving move marks exactly its own row as resolved and keeps
/// the card valid.
proof fn lemma_apply_op_scored(s: Seq<Score>, op: CardOp)
    requires
        slots_wf(s),
        op_positive(op),
    ensures
        slots_wf(apply_op(s, op)),
        forall|i: int|
            0 <= i < 15 ==> ((#[trigger] apply_op(s, op)[i]).scored_spec() <==> s[i].scored_spec()
                || type_index(op_category(op)) == i),
{
    lemma_type_roundtrip();
}

/// After a run of resolving moves, a row is resolved exactly when it
/// started resolved or some move named its category.
proof fn lemma_apply_ops_scored(s: Seq<Score>, ops: Seq<CardOp>)
    requires
        slots_wf(s),
        forall|k: int| 0 <= k < ops.len() ==> op_positive(#[trigger] ops[k]),
    ensures
        slots_wf(apply_ops(s, ops)),
        forall|i: int|
            0 <= i < 15 ==> ((#[trigger] apply_ops(s, ops)[i]).scored_spec() <==> s[i].scored_spec()
                || (exists|k: int|
                0 <= k < ops.len() && type_index(op_category(#[trigger] ops[k])) == i)),
    decreases ops.len(),
{
    if ops.len() > 0 {
        let s1 = apply_op(s, ops[0]);
        let rest = ops.drop_first();
        lemma_apply_op_scored(s, ops[0]);
        assert(forall|k: int| 0 <= k < rest.len() ==> op_positive(#[trigger] rest[k]));
        lemma_apply_ops_scored(s1, rest);
        assert forall|i: int|
            0 <= i < 15 implies ((#[trigger] apply_ops(s, ops)[i]).scored_spec()
            <==> s[i].scored_spec() || (exists|k: int|
            0 <= k < ops.len() && type_index(op_category(#[trigger] ops[k])) == i)) by {
            assert(apply_ops(s, ops) == apply_ops(s1, rest));
            if apply_ops(s1, rest)[i].scored_spec() {
                if !s1[i].scored_spec() {
                    let k = choose|k: int|
                        0 <= k < rest.len() && type_index(op_category(#[trigger] rest[k])) == i;
                    assert(rest[k] == ops[k + 1]);
                    assert(type_index(op_category(ops[k + 1])) == i);
                } else if !s[i].scored_spec() {
                    assert(type_index(op_category(ops[0])) == i);
                }
            }
            if s[i].scored_spec() {
                assert(s1[i].scored_spec());
            } else if exists|k: int|
                0 <= k < ops.len() && type_index(op_category(#[trigger] ops[k])) == i {
                let k = choose|k: int|
                    0 <= k < ops.len() && type_index(op_category(#[trigger] ops[k])) == i;
                if k == 0 {
                    assert(s1[i].scored_spec());
                } else {
                    assert(rest[k - 1] == ops[k]);
                    assert(exists|k2: int|
                        0 <= k2 < rest.len() && type_index(op_category(#[trigger] rest[k2])) == i);
                }
            }
        }
    }
}

/// The positions a run of moves names, as a set.
spec fn ops_index_set(ops: Seq<CardOp>) -> Set<int>
    decreases ops.len(),
{
    if ops.len() == 0 {
        Set::empty()
    } else {
        ops_index_set(ops.drop_last()).insert(type_index(op_category(ops.last())))
    }
}

/// Moves on pairwise distinct categories name pairwise distinct
/// positions: the set of named positions is as large as the run.
proof fn lemma_ops_index_set(ops: Seq<CardOp>)
    requires
        forall|k1: int, k2: int|
            0 <= k1 < k2 < ops.len() ==> op_category(ops[k1]) != op_category(ops[k2]),
    ensures
        ops_index_set(ops).finite(),
        ops_index_set(ops).len() == ops.len(),
        forall|i: int|
            ops_index_set(ops).contains(i) <==> exists|k: int|
                0 <= k < ops.len() && type_index(op_category(#[trigger] ops[k])) == i,
    decreases ops.len(),
{
    lemma_type_roundtrip();
    if ops.len() > 0 {
        let pre = ops.drop_last();
        assert(forall|k1: int, k2: int|
            0 <= k1 < k2 < pre.len() ==> op_category(pre[k1]) != op_category(pre[k2]));
        lemma_ops_index_set(pre);
        let last_idx = type_index(op_category(ops.last()));
        assert(!ops_index_set(pre).contains(last_idx)) by {
            if ops_index_set(pre).contains(last_idx) {
                let k = choose|k: int|
                    0 <= k < pre.len() && type_index(op_category(#[trigger] pre[k])) == last_idx;
                assert(op_category(ops[k]) == op_category(ops.last()));
                assert(false);
            }
        }
        assert forall|i: int| ops_index_set(ops).contains(i) implies exists|k: int|
            0 <= k < ops.len() && type_index(op_category(#[trigger] ops[k])) == i by {
            if i == last_idx {
                assert(type_index(op_category(ops[ops.len() - 1])) == i);
            } else {
                let k = choose|k: int|
                    0 <= k < pre.len() && type_index(op_category(#[trigger] pre[k])) == i;
                assert(ops[k] == pre[k]);
            }
        }
        assert forall|i: int|
            (exists|k: int|
                0 <= k < ops.len() && type_index(op_category(#[trigger] ops[k])) == i) implies
            ops_index_set(ops).contains(i) by {
            let k = choose|k: int|
                0 <= k < ops.len() && type_index(op_category(#[trigger] ops[k])) == i;
            if k < ops.len() - 1 {
                assert(pre[k] == ops[k]);
                assert(ops_index_set(pre).contains(i));
            }
        }
    }
}

/// Completion: fifteen claims or strikes on pairwise distinct
/// categories, each claim with a positive score, resolve a fresh card
/// entirely.
pub proof fn lemma_completion(ops: Seq<CardOp>)
    requires
        ops.len() == 15,
        forall|k: int| 0 <= k < 15 ==> op_positive(#[trigger] ops[k]),
        forall|k1: int, k2: int| 0 <= k1 < k2 < 15 ==> op_category(ops[k1]) != op_category(ops[k2]),
    ensures
        slots_complete(apply_ops(initial_slots(), ops)),
{
    lemma_type_roundtrip();
    assert(slots_wf(initial_slots()));
    lemma_apply_ops_scored(initial_slots(), ops);
    lemma_ops_index_set(ops);
    let im = ops_index_set(ops);
    let rng = set_int_range(0, 15);
    lemma_int_range(0, 15);
    assert(im.subset_of(rng)) by {
        assert forall|i: int| im.contains(i) implies rng.contains(i) by {
            let k = choose|k: int|
                0 <= k < ops.len() && type_index(op_category(#[trigger] ops[k])) == i;
            assert(0 <= type_index(op_category(ops[k])) < 15);
        }
    }
    let done = apply_ops(initial_slots(), ops);
    assert forall|i: int| 0 <= i < 15 implies (#[trigger] done[i]).scored_spec() by {
        if !im.contains(i) {
            im.lemma_subset_not_in_lt(rng, i);
            assert(false);
        }
        assert(!initial_slots()[i].scored_spec());
    }
}

} // verus!
