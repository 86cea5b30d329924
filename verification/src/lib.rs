pub mod direction;
pub mod game;
pub mod grid;
pub mod input;
pub mod render;
