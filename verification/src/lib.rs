//! The decisions of a chat agent that lives behind a message bridge.

pub mod a2a;
pub mod agent;
pub mod bridge;
pub mod calendar;
pub mod cli;
pub mod compact;
pub mod config;
pub mod cron;
pub mod hitl;
pub mod ids;
pub mod json;
pub mod mcp;
pub mod memory;
pub mod model_catalog;
pub mod reload;
pub mod runtime;
pub mod scheduler;
pub mod seqs;
pub mod session;
pub mod skill;
pub mod table;
pub mod tenant;
pub mod text;
pub mod tools;
