//! Core of a declarative authorization policy engine: the in-memory
//! knowledge base that aggregates parsed rules, registered host classes
//! (with their method resolution orders), resource-block declarations and
//! source files, and validates that a loaded policy is structurally
//! coherent before it is queried.

pub mod alist;
pub mod counter;
pub mod error;
pub mod fmt;
pub mod kb;
pub mod laws;
pub mod resource_block;
pub mod rules;
pub mod sources;
pub mod terms;
