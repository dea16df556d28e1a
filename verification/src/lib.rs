//! A parsing-expression-grammar engine.
//!
//! A grammar is a list of rules built from literal tokens, regular-expression
//! leaves, references to other rules and quantified sequences. Matching a rule
//! against an input yields the end of the matched prefix together with a flat
//! record of the matched nodes, the tag stack.
//!
//! - [`builder`] holds grammars as they are written down; [`num_build`] and
//!   [`rules_impl_build`] make them ready to run.
//! - [`grammar`] is the grammar model that the engine runs.
//! - [`registry`] gives the rules of all grammars identities of their own.
//! - [`tag`] is the tag stack, [`trace`] the events of traced rules and
//!   [`space`] the whitespace policy.
//! - [`semantics`] defines what every matching operation returns and
//!   [`engine`] implements the operations.
//! - [`laws`] proves what holds of every match.
//! - [`pattern`] is the way to the regular-expression engine, and
//!   [`boundary`] knows where characters begin.

pub mod boundary;
pub mod builder;
pub mod engine;
pub mod grammar;
pub mod laws;
pub mod num_build;
pub mod pattern;
pub mod registry;
pub mod rules_impl_build;
pub mod semantics;
pub mod space;
pub mod tag;
pub mod trace;
