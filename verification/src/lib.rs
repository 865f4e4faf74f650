//! Tiny Decision core library: the verified logic of the decision harness.

pub mod types;
pub mod calibration;
pub mod text;
pub mod pipeline;
pub mod somi;
pub mod mcp;
pub mod table;
pub mod inference;
pub mod hf;
pub mod commands;
pub mod plugins;
pub mod db;
pub mod flywheel;
