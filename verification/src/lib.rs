//! Contracts, canonical validation and identities for graph-grounded source
//! transformation recipes and their candidates.

pub mod model;
pub mod text;
pub mod order;
pub mod json;
pub mod identity;
pub mod contract;
pub mod recipe;
pub mod recipes;
pub mod evidence;
pub mod target;
pub mod candidate;
pub mod impact;
pub mod evaluation;
pub mod clarity;
pub mod semantic;
pub mod report;
pub mod project;
