pub mod entity;
pub mod game;
pub mod laws;
