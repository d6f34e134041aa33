pub mod dice;
pub mod dice_result;
pub mod game;
pub mod input;
pub mod scores;
