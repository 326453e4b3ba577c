//! Verified core of an AI tools desktop hub: the logic of a desktop
//! platform that manages AI tools (API models and command-line agents), with
//! its sandbox, knowledge base, memory, skills, search, hub and desk.

pub mod text;
pub mod order;
pub mod json;
pub mod clock;
pub mod models;
pub mod sandbox;
pub mod vault;
pub mod tool_layer;
pub mod tools;
pub mod chat;
pub mod subagent;
pub mod knowledge;
pub mod sessions;
pub mod memory;
pub mod learning;
pub mod skill_bundle;
pub mod personality;
pub mod desk;
pub mod hub;
pub mod search;
pub mod browser;
pub mod pty;
pub mod cli;
pub mod context;
