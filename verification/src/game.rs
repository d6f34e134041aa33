use crate::dice::DiceRoll;
use crate::scores::ScoreCard;
use crate::scores::initial_slots;
use vstd::prelude::*;

verus! {

broadcast use vstd::string::group_string_axioms;

/// One game in progress: the rerolls left this round, the current
/// hand, and the scorecard.
pub struct Game {
    pub rerolls: i32,
    pub dice: DiceRoll,
    pub score_card: ScoreCard,
}

impl Game {
    /// A valid game state: rerolls between zero and two, a legal hand,
    /// a valid card.
    pub open spec fn wf(&self) -> bool {
        0 <= self.rerolls <= 2 && self.dice.wf() && self.score_card.wf()
    }

    /// A fresh game: two rerolls, a rolled hand, a fully open card.
    pub fn new() -> (g: Game)
        ensures
            g.wf(),
            g.rerolls == 2,
            g.score_card.scores@ == initial_slots(),
    {
        Game { rerolls: 2, dice: DiceRoll::new(), score_card: ScoreCard::new() }
    }

    /// Begin the next round: two rerolls again and a fresh hand; the
    /// card stands as it was.
    pub fn reset_round(&mut self)
        requires
            old(self).wf(),
        ensures
            final(self).wf(),
            final(self).rerolls == 2,
            final(self).score_card == old(self).score_card,
    {
        self.rerolls = 2;
        self.dice = DiceRoll::new();
    }

    /// Validate a reroll request: it goes through exactly when a
    /// reroll is left and between one and five positions are named;
    /// otherwise the matching complaint comes back.
    pub fn get_reroll(&self, indices: Vec<usize>) -> (r: Result<Vec<usize>, String>)
        ensures
            (match r {
                Ok(v) => self.rerolls != 0 && 1 <= indices@.len() <= 5 && v@ == indices@,
                Err(e) => (self.rerolls == 0 && e@ == "You have no rerolls left!"@) || (
                self.rerolls != 0 && !(1 <= indices@.len() <= 5) && e@
                    == "You must reroll between 1 and 5 dice!"@),
            }),
    {
        if self.rerolls == 0 {
            return Err("You have no rerolls left!".to_string());
        }
        if indices.len() == 0 || indices.len() > 5 {
            return Err("You must reroll between 1 and 5 dice!".to_string());
        }
        Ok(indices)
    }

    /// Carry out a reroll request: when it is valid, the named dice
    /// are rolled again and a reroll is spent; when it is not, the
    /// game is unchanged and the complaint comes back.
    pub fn apply_reroll(&mut self, indices: Vec<usize>) -> (r: Result<(), String>)
        requires
            old(self).wf(),
        ensures
            final(self).wf(),
            final(self).score_card == old(self).score_card,
            (match r {
                Ok(()) => {
                    &&& old(self).rerolls != 0
                    &&& 1 <= indices@.len() <= 5
                    &&& final(self).rerolls == old(self).rerolls - 1
                    &&& forall|i: int|
                        0 <= i < 5 && !indices@.contains(i as usize) ==> final(self).dice.dice@[i]
                            == old(self).dice.dice@[i]
                },
                Err(e) => *final(self) == *old(self) && ((old(self).rerolls == 0 && e@
                    == "You have no rerolls left!"@) || (old(self).rerolls != 0 && !(1
                    <= indices@.len() <= 5) && e@ == "You must reroll between 1 and 5 dice!"@)),
            }),
    {
        if self.rerolls == 0 {
            return Err("You have no rerolls left!".to_string());
        }
        if indices.len() == 0 || indices.len() > 5 {
            return Err("You must reroll between 1 and 5 dice!".to_string());
        }
        let new_dice = self.dice.reroll(indices);
        self.rerolls = self.rerolls - 1;
        self.dice = new_dice;
        Ok(())
    }
}

} // verus!
