pub mod admin;
pub mod buttons;
pub mod channel;
pub mod chud_commands;
pub mod commands;
pub mod components_v2;
pub mod context;
pub mod formatting;
pub mod game_screens;
pub mod guild_hall;
pub mod messages;
pub mod report_dm;
pub mod simulation;
pub mod tick;
pub mod ui;
