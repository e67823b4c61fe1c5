//! A store of memories for agents: what is stored with tags, a scope and a condition of expiry is
//! found again by a search that ranks by relevance.
pub mod alerts;
pub mod answers;
pub mod browse;
pub mod cli;
pub mod commands;
pub mod embedding;
pub mod error;
pub mod expiration;
pub mod explorer;
pub mod files;
pub mod form;
pub mod guarantees;
pub mod input;
pub mod json;
pub mod laws;
pub mod mcp;
pub mod model;
pub mod ranking;
pub mod record;
pub mod rows;
pub mod score;
pub mod search;
pub mod store;
pub mod tags;
pub mod text;
pub mod time;
pub mod tools;

pub use model::{ExpirationCondition, MemoryMode};
pub use store::{MemoryStore, SearchOptions, SetMemory};
