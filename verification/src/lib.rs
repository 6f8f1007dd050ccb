//! Verified core of the agent coordination service: credential rules,
//! request validation, review satisfaction, idempotent mutation receipts,
//! import parsing and retention decisions.
use vstd::prelude::*;

pub mod artifacts;
pub mod auth;
pub mod autonomy;
pub mod backup;
pub mod catalog;
pub mod claims;
pub mod context;
pub mod coordination;
pub mod credential_attributes;
pub mod crypto;
pub mod decisions;
pub mod discovery;
pub mod documentation;
pub mod error;
pub mod gateway;
pub mod history;
pub mod ids;
pub mod imports;
pub mod jobs;
pub mod knowledge;
pub mod maintenance;
pub mod mcp;
pub mod mutation;
pub mod objectives;
pub mod policy;
pub mod reservations;
pub mod state;
pub mod tasks;
pub mod text;
pub mod validation;

verus! {

} // verus!
