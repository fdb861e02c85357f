//! Support library for testing capability providers.
use vstd::prelude::*;

pub mod checks;
pub mod cli;
pub mod config;
pub mod duration;
pub mod encoding;
pub mod error;
pub mod identity;
pub mod json;
pub mod loader;
pub mod log_level;
pub mod provider;
pub mod registry;
pub mod runner;
pub mod select;
pub mod start;
pub mod text;
pub mod value_map;

verus! {

} // verus!
