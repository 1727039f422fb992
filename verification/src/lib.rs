pub mod ai;
pub mod foreign;
pub mod order;
pub mod query;
pub mod tags;
pub mod text;
pub mod types;
pub mod mock;
pub mod backends;
pub mod desktop;
pub mod status;
pub mod command;
pub mod actions;
pub mod sync;
pub mod upgrade;
pub mod agent;
