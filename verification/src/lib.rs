//! Verified core of a command-line Minecraft launcher.
use vstd::prelude::*;

pub mod text;
pub mod paths;
pub mod layout;
pub mod java;
pub mod config;
pub mod download;
pub mod auth;
pub mod version;
pub mod loader;
pub mod launch;

verus! {

} // verus!
