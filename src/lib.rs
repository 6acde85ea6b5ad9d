//! Core rules of a small side-scrolling game: player movement, the loading
//! screen's progress, the walking animation, the level layout and the game's
//! states, in integer fixed-point units.
pub mod animation;
pub mod clock;
pub mod config;
pub mod flow;
pub mod isqrt;
pub mod level;
pub mod loading;
pub mod motion;
pub mod player;
