//! A terminal toolbox: a small shooting game, a music search and player
//! front end, and the screen geometry they share.
pub mod ui;
pub mod games;
pub mod music;
pub mod cli;
pub mod process;
