//! A container agent whose container operations are shell commands taken
//! from a JSON file of named actions. The library renders the command
//! templates, resolves actions, and decides step by step how a chain of
//! commands runs; the caller runs the commands themselves.

pub mod text;
pub mod json;
pub mod template;
pub mod error;
pub mod config;
pub mod engine;
pub mod cpi_actions;
pub mod api;
pub mod routes;
pub mod instances;
pub mod metrics;
pub mod agent;
