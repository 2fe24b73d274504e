//! A snake game engine: the grid, the snake's body and heading, the turn rule,
//! the step that moves or grows the snake, food placement and the two
//! collision predicates, each with a machine-checked contract.

pub mod grid;
pub mod input;
pub mod laws;
pub mod layout;
pub mod model;
pub mod random;
pub mod session;
pub mod snake;
pub mod trail;
