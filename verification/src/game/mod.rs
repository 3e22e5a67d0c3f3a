pub mod domain;
pub mod generation;
pub mod mechanics;
pub mod persistence;
pub mod merchant;
pub mod busy;
pub mod guild_status;
pub mod engine;
pub mod slots;
