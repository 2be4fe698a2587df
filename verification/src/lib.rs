//! Generates Rust source for instruction-selection terms from their decision tries.

pub mod codegen;
pub mod context;
pub mod group;
pub mod ir;
pub mod laws;
pub mod order;
pub mod output;
pub mod pos;
pub mod sema;
pub mod text;
pub mod trie;
pub mod tries;
