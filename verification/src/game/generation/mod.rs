pub mod quest_generator;
pub mod generators;
pub mod item_generator;
pub mod memory;
pub mod merchant_generator;
pub mod worker;
pub mod yaml_value;
