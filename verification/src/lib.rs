//! Decision logic of a small continuous-deployment agent: recipes, webhook
//! targets, and the per-target deployment state machine.

pub mod config;
pub mod cycle;
pub mod git;
pub mod listener;
pub mod registry;
pub mod repository;
pub mod supervisor;
pub mod target;
pub mod text;
pub mod webhook;
