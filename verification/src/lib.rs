//! Orchestrates the deployment of a smart contract: resolves a layered
//! environment, expands `${NAME}` placeholders, and steps a run from its
//! preparation over setup, confirmation and execution to its cleanup. The
//! library decides; a driver performs what it asks for and reports back.

pub mod cli;
pub mod command;
pub mod config;
pub mod deployer;
pub mod environment;
pub mod runs;
pub mod text;
