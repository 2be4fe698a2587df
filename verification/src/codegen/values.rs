//! Names of types and values, and the bindings of values.

use crate::codegen::Codegen;
use crate::context::BodyContext;
use crate::ir::Value;
use crate::output::{
    bind, binder_text, borrowed_text, braced, can_borrow, const_text, has_const_type, owned_text,
    tuple_text, type_text, value_text,
};
use crate::sema::{Type, TypeId};
use crate::text::{decimal_string, join_comma, signed_decimal_string, texts, truth_str};
use vstd::prelude::*;
use vstd::string::StringExecFns;

verus! {

impl<'a> Codegen<'a> {
    /// Returns the name of a type, as a parameter or a pattern has it (`by_ref`) or on its own.
    pub fn ty_name(&self, typeid: TypeId, by_ref: bool) -> (s: String)
        requires
            self.typeenv.has_named_type(typeid),
        ensures
            s@ == type_text(*self.typeenv, typeid, by_ref),
    {
        match &self.typeenv.types[typeid.index()] {
            Type::Primitive(_, sym, _) => self.typeenv.syms[sym.index()].clone(),
            Type::Enum { name, .. } => {
                if by_ref {
                    let mut s = "&".to_string();
                    s.append(self.typeenv.syms[name.index()].as_str());
                    s
                } else {
                    self.typeenv.syms[name.index()].clone()
                }
            },
        }
    }

    /// Returns the variable that holds a value.
    pub fn value_name(&self, value: &Value) -> (s: String)
        ensures
            s@ == value_text(*value),
    {
        match value {
            Value::Pattern { inst, output } => {
                let mut s = "pattern".to_string();
                s.append(decimal_string(inst.index() as u64).as_str());
                s.append("_");
                s.append(decimal_string(*output as u64).as_str());
                s
            },
            Value::Expr { inst, output } => {
                let mut s = "expr".to_string();
                s.append(decimal_string(inst.index() as u64).as_str());
                s.append("_");
                s.append(decimal_string(*output as u64).as_str());
                s
            },
        }
    }

    /// Returns whether a type is primitive.
    pub fn ty_prim(&self, ty: TypeId) -> (b: bool)
        requires
            self.typeenv.has_type(ty),
        ensures
            b == self.typeenv.is_prim(ty),
    {
        self.typeenv.types[ty.index()].is_prim()
    }

    /// Returns the pattern that binds a value's variable: by reference only where that is asked
    /// for and the type is not primitive.
    pub fn value_binder(&self, value: &Value, is_ref: bool, ty: TypeId) -> (s: String)
        requires
            self.typeenv.has_type(ty),
        ensures
            s@ == binder_text(*self.typeenv, *value, is_ref, ty),
    {
        let prim = self.ty_prim(ty);
        if prim || !is_ref {
            self.value_name(value)
        } else {
            let mut s = "ref ".to_string();
            s.append(self.value_name(value).as_str());
            s
        }
    }

    /// Returns the expression for a reference to a bound value, or for the value itself where its
    /// type is primitive.
    pub fn value_by_ref(&self, value: &Value, ctx: &BodyContext) -> (s: String)
        requires
            can_borrow(*self.typeenv, ctx@, *value),
        ensures
            s@ == borrowed_text(*self.typeenv, ctx@, *value),
    {
        let raw_name = self.value_name(value);
        let (is_ref, ty) = ctx.get(value).unwrap();
        let prim = self.ty_prim(ty);
        if is_ref || prim {
            raw_name
        } else {
            let mut s = "&".to_string();
            s.append(raw_name.as_str());
            s
        }
    }

    /// Returns the expression for a bound value itself.
    pub fn value_by_val(&self, value: &Value, ctx: &BodyContext) -> (s: String)
        requires
            ctx@.contains_key(*value),
        ensures
            s@ == owned_text(ctx@, *value),
    {
        let raw_name = self.value_name(value);
        let (is_ref, _) = ctx.get(value).unwrap();
        if is_ref {
            let mut s = raw_name;
            s.append(".clone()");
            s
        } else {
            raw_name
        }
    }

    /// Binds a value. One of a primitive type is never bound as a reference.
    pub fn define_val(&self, value: &Value, ctx: &mut BodyContext, is_ref: bool, ty: TypeId)
        requires
            self.typeenv.has_type(ty),
        ensures
            final(ctx)@ == bind(*self.typeenv, old(ctx)@, *value, is_ref, ty),
    {
        let is_ref = !self.ty_prim(ty) && is_ref;
        ctx.insert(*value, is_ref, ty);
    }

    /// Returns an integer as a constant of a primitive type.
    pub fn const_int(&self, val: i64, ty: TypeId) -> (s: String)
        requires
            has_const_type(*self.typeenv, ty),
        ensures
            s@ == const_text(*self.typeenv, val, ty),
    {
        let is_bool = *self.typeenv.types[ty.index()].name(self.typeenv) == "bool".to_string();
        if is_bool {
            truth_str(val != 0).to_string()
        } else {
            signed_decimal_string(val)
        }
    }

    /// Returns a list in parentheses, but for one of a single part.
    pub(crate) fn tuple(&self, parts: &Vec<String>) -> (s: String)
        ensures
            s@ == tuple_text(texts(parts@)),
    {
        if parts.len() == 1 {
            join_comma(parts)
        } else {
            let mut s = "(".to_string();
            s.append(join_comma(parts).as_str());
            s.append(")");
            s
        }
    }

    /// Returns the patterns for the fields between braces, or nothing where there is no field.
    pub(crate) fn brace_binders(&self, binders: &Vec<String>) -> (s: String)
        ensures
            s@ == braced(texts(binders@)),
    {
        if binders.len() == 0 {
            "".to_string()
        } else {
            let mut s = "{ ".to_string();
            s.append(join_comma(binders).as_str());
            s.append(" }");
            s
        }
    }
}

} // verus!
