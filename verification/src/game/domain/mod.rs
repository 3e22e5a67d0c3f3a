pub mod stash;
pub mod item;
pub mod quest;
pub mod episode_stats;
pub mod player;
pub mod quest_result;
pub mod board;
pub mod graveyard;
pub mod job_queue;
pub mod session;
pub mod starting_benefits;
pub mod hospital;
pub mod guild_hall;
