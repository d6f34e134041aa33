use vstd::prelude::*;

verus! {

/// A line of player input, already parsed: a reroll of zero-based die
/// positions, or one of the fixed commands.
pub enum Command {
    Reroll(Vec<usize>),
    Pick,
    Quit,
    Help,
    Reset,
    ShowScores,
}

} // verus!
