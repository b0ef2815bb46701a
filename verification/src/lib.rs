//! A verified workflow execution engine core: portable Git bundle validation,
//! workflow conditions, run evidence, coordination and agent protocol rules.

pub mod agent;
pub mod bytes;
pub mod codex;
pub mod command_contract;
pub mod condition;
pub mod condition_laws;
pub mod condition_outcome_laws;
pub mod coordinator;
pub mod coordinator_laws;
pub mod decimal;
pub mod diagnostic;
pub mod document;
pub mod evidence;
pub mod evidence_laws;
pub mod execution;
pub mod execution_root;
pub mod failure;
pub mod finalization_context;
pub mod force_abort_evidence;
pub mod git_artifact;
pub mod json;
pub mod json_laws;
pub mod json_text;
pub mod named;
pub mod number;
pub mod path;
pub mod path_laws;
pub mod pointer;
pub mod run_laws;
pub mod runtime;
pub mod text;
