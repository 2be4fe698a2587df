//! What holds of the generated source as a whole.

pub mod bindings;
pub mod blocks;
pub mod building;
pub mod declared;
pub mod edges;
pub mod file;
pub mod items;
pub mod matching;
pub mod names;
pub mod nesting;
pub mod nodes;
pub mod permuted;
pub mod pieces;
pub mod priorities;
pub mod rules;
pub mod symbols;
pub mod values;
