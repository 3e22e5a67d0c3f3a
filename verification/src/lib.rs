//! Core game logic of the chud guild: the job board, chuds and their gear, the merchant,
//! episode records, and the Discord message layouts built from them.

pub mod discord;
pub mod game;
pub mod rng;
pub mod text;
