//! The protocol logic of an Agent Communication Protocol (ACP v0.2.3) server for
//! Foundry Local: the agent registry, threads and runs, with contracts and the
//! laws that hold across operations, verified by Verus.

pub mod acp_types;
pub mod error;
pub mod ids;
pub mod json;
pub mod state;
pub mod text;
pub mod paging;
pub mod threads;
pub mod runs;
pub mod inference;
pub mod agents;
pub mod metrics;
pub mod health;
pub mod config;
pub mod persistence;
pub mod embedding;
pub mod laws;
