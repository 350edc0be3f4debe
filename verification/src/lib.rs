//! Building blocks for LLM agents: the tool-use loop, teams, plans, rate limits, tool
//! approval, context, memories, skills and usage, with their contracts proved.

pub mod text;
pub mod message;
pub mod sys;
pub mod config;
pub mod state;
pub mod event;
pub mod adapter;
pub mod hook;
pub mod agent_loop;
pub mod json;
pub mod team;
pub mod openai;
pub mod files;
pub mod plan;
pub mod semaphore;
pub mod policy;
pub mod context;
pub mod skill;
pub mod memory;
pub mod cost;
pub mod coordinator;
pub mod subagent;
pub mod craft;
