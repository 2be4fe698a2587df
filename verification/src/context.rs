//! The values that are bound while a function's body is generated.

use crate::ir::Value;
use crate::output::Bindings;
use crate::sema::TypeId;
use std::collections::BTreeMap;
use vstd::prelude::*;

verus! {

broadcast use vstd::laws_cmp::group_laws_cmp;

/// The values that are bound so far.
#[derive(Debug)]
pub struct BodyContext {
    /// For each value, by its index: whether its variable is a reference, and its type.
    values: BTreeMap<(usize, usize, usize), (bool, TypeId)>,
}

/// Three numbers that stand for a value.
pub open spec fn value_index(value: Value) -> (usize, usize, usize) {
    match value {
        Value::Pattern { inst, output } => (0, inst.0, output),
        Value::Expr { inst, output } => (1, inst.0, output),
    }
}

fn index_of(value: &Value) -> (index: (usize, usize, usize))
    ensures
        index == value_index(*value),
{
    match value {
        Value::Pattern { inst, output } => (0, inst.index(), *output),
        Value::Expr { inst, output } => (1, inst.index(), *output),
    }
}

impl View for BodyContext {
    type V = Bindings;

    closed spec fn view(&self) -> Bindings {
        Map::new(
            |value: Value| self.values@.contains_key(value_index(value)),
            |value: Value| self.values@[value_index(value)],
        )
    }
}

impl Default for BodyContext {
    /// Returns a context in which nothing is bound.
    fn default() -> (ctx: Self)
        ensures
            ctx@ == Map::<Value, (bool, TypeId)>::empty(),
    {
        let ctx = BodyContext { values: BTreeMap::new() };
        assert(ctx@ =~= Map::<Value, (bool, TypeId)>::empty());
        ctx
    }
}

impl BodyContext {
    /// Returns a context in which the same values are bound.
    pub fn duplicate(&self) -> (ctx: Self)
        ensures
            ctx@ == self@,
    {
        BodyContext { values: self.values.clone() }
    }

    /// Returns whether the variable of a value is a reference, and its type, where it is bound.
    pub fn get(&self, value: &Value) -> (binding: Option<(bool, TypeId)>)
        ensures
            binding == if self@.contains_key(*value) {
                Some(self@[*value])
            } else {
                None
            },
    {
        match self.values.get(&index_of(value)) {
            Some(binding) => Some(*binding),
            None => None,
        }
    }

    /// Binds a value.
    pub fn insert(&mut self, value: Value, is_ref: bool, ty: TypeId)
        ensures
            final(self)@ == old(self)@.insert(value, (is_ref, ty)),
    {
        self.values.insert(index_of(&value), (is_ref, ty));
        assert(self@ =~= old(self)@.insert(value, (is_ref, ty)));
    }
}

} // verus!
