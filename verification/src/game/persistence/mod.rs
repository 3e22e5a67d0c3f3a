pub mod chudmasters;
pub mod item_registry;
pub mod merchants;
pub mod message_cache;
pub mod storage;
