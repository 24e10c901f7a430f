//! Semantic analysis for a small expression-oriented language.
//!
//! The binder turns a parsed syntax tree into a typed semantic tree,
//! resolving every name against a stack of scopes and collecting
//! diagnostics for whatever it cannot resolve.
pub mod text;
pub mod types;
pub mod syntax;
pub mod diag;
pub mod operators;
pub mod tree;
pub mod scope;
pub mod model;
pub mod binder;
pub mod laws;
pub mod transform;
pub mod compile;
