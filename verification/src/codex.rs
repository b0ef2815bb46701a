//! Running the Codex app server as an agent.

pub mod agent_laws;
pub mod drive;
pub mod drive_effects;
pub mod drive_laws;
pub mod input;
pub mod launch;
pub mod process;
pub mod rollout;
pub mod supervisor;
