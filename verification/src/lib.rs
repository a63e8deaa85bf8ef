use vstd::prelude::*;

pub mod text;
pub mod lines;
pub mod codex;
pub mod json;
pub mod agents;
pub mod location;
pub mod settings;
pub mod server;
pub mod credentials;
pub mod autostart;
pub mod backup;

verus! {

} // verus!
