//! A fixed-step arcade shooter simulation: a player craft fires bullets at a
//! row of enemies that patrol their lanes, with menu, pause and game-over
//! handling. Rendering, input and audio are left to the host.
pub mod geometry;
pub mod world;
pub mod combat;
pub mod lifecycle;
pub mod game;
pub mod laws;
