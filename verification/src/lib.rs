//! A snake game played on a fixed grid: the board geometry, the game state
//! machine driven by ticks and key presses, the speed rules, the layout
//! arithmetic of the terminal screen and the high-score text format.

pub mod grid;
mod random;
pub mod game;
pub mod input;
pub mod layout;
pub mod high_score;
