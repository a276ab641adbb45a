//! Semantic-analysis and optimization core for a small compiled language.
//!
//! The crate models the language's structural type terms together with the
//! coercion relation that decides when one type may stand in for another,
//! a single-pass type checker that walks a parsed program and rejects the
//! first inconsistency, a constraint-based type inference engine that defers
//! judgement to a unification solver, and an optimizer over a lowered
//! instruction list (constant folding, dead-code elimination, and
//! priority-redundancy elimination).
//!
//! Tokenizing, parsing, code emission and execution are collaborators that
//! live outside this crate: they produce the [`ast`] values consumed here and
//! consume the [`ir`] values produced here.

pub mod ast;
pub mod error;
pub mod ir;
pub mod optimizer;
pub mod type_system;
