//! A grammar-driven, backtracking recursive-descent parsing engine.
//!
//! A grammar is an arena of rules ([`parse::Parser`]) built either from the
//! primitive combinators or compiled from a textual grammar notation
//! ([`parse::Parser::from_bnf`]).  Applying a grammar to an input text yields
//! a typed syntax tree ([`node::Node`]) or the position of the failure.

pub mod arith;
pub mod bnf;
pub mod builder;
pub mod input;
pub mod json;
pub mod json_new;
pub mod laws;
pub mod node;
pub mod parse;
pub mod repr;
pub mod semantics;
pub mod symbol;
