pub mod quest_builder;
pub mod simulation;
pub mod item_builder;
