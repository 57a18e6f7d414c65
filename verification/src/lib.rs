//! Rewrites dynamic, runtime-resolved module references in compiled Luau
//! sources into static, hierarchy-relative `require` expressions.
//!
//! The crate holds the verified core: the bidirectional path index built from
//! a sourcemap tree, the resolver that turns two logical module paths into a
//! chain of ascend/descend steps, and the pattern matcher and expression
//! synthesizer that rewrite the three dynamic-import idioms on a model of the
//! Luau expression grammar.

pub mod index;
pub mod lua;
pub mod transform;
pub mod maps;
pub mod resolve;
pub mod strutil;
