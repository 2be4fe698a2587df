//! The instructions that match a term and build its result.

use crate::pos::Pos;
use crate::sema::{Sym, TermId, TypeId, VariantId};
use vstd::prelude::*;

verus! {

/// The position of an instruction in its sequence.
#[derive(Clone, Copy, Debug, PartialEq, Eq, Structural)]
pub struct InstId(pub usize);

impl InstId {
    /// Returns the position as a number.
    pub fn index(&self) -> (i: usize)
        ensures
            i == self.0,
    {
        self.0
    }
}

/// An output of an earlier instruction.
#[derive(Clone, Copy, Debug, PartialEq, Eq, Structural)]
pub enum Value {
    /// An output of a pattern instruction.
    Pattern {
        /// The instruction.
        inst: InstId,
        /// Which of its outputs.
        output: usize,
    },
    /// An output of an expression instruction.
    Expr {
        /// The instruction.
        inst: InstId,
        /// Which of its outputs.
        output: usize,
    },
}

/// An instruction that takes the matched term apart.
#[derive(Clone, Debug)]
pub enum PatternInst {
    /// Gives an argument of the term.
    Arg {
        /// Which argument.
        index: usize,
        /// Its type.
        ty: TypeId,
    },
    /// Matches where two values are equal.
    MatchEqual {
        /// The first value.
        a: Value,
        /// The second value.
        b: Value,
        /// Their type.
        ty: TypeId,
    },
    /// Matches where a value is a given integer.
    MatchInt {
        /// The value.
        input: Value,
        /// Its type.
        ty: TypeId,
        /// The integer.
        int_val: i64,
    },
    /// Matches where a value is a given constant of a primitive type.
    MatchPrim {
        /// The value.
        input: Value,
        /// Its type.
        ty: TypeId,
        /// The constant's name.
        val: Sym,
    },
    /// Matches where a value is a given variant of an enum, and gives its fields.
    MatchVariant {
        /// The value.
        input: Value,
        /// Its type.
        input_ty: TypeId,
        /// The types of the fields.
        arg_tys: Vec<TypeId>,
        /// The variant.
        variant: VariantId,
    },
    /// Calls an extractor, and gives what it extracts.
    Extract {
        /// The values handed to the extractor.
        inputs: Vec<Value>,
        /// Their types.
        input_tys: Vec<TypeId>,
        /// The types of what it gives.
        output_tys: Vec<TypeId>,
        /// The term whose extractor it is.
        term: TermId,
        /// Whether the extractor always matches.
        infallible: bool,
    },
    /// Evaluates an expression, and gives its value.
    Expr {
        /// The expression.
        seq: ExprSequence,
        /// The value of the expression.
        output: Value,
        /// The type of the value.
        output_ty: TypeId,
    },
}

impl PatternInst {
    /// Whether the instruction always matches.
    pub open spec fn infallible(self) -> bool {
        match self {
            PatternInst::Arg { .. } => true,
            PatternInst::Extract { infallible, .. } => infallible,
            PatternInst::Expr { seq, .. } => seq.const_int() is Some,
            _ => false,
        }
    }

    /// Returns whether the instruction always matches.
    pub fn is_infallible(&self) -> (b: bool)
        ensures
            b == self.infallible(),
    {
        match self {
            PatternInst::Arg { .. } => true,
            PatternInst::Extract { infallible, .. } => *infallible,
            PatternInst::Expr { seq, .. } => seq.is_const_int().is_some(),
            _ => false,
        }
    }
}

/// An instruction that builds a part of the result.
#[derive(Clone, Debug)]
pub enum ExprInst {
    /// Gives an integer.
    ConstInt {
        /// Its type.
        ty: TypeId,
        /// The integer.
        val: i64,
    },
    /// Gives a constant of a primitive type.
    ConstPrim {
        /// Its type.
        ty: TypeId,
        /// The constant's name.
        val: Sym,
    },
    /// Builds a variant of an enum.
    CreateVariant {
        /// The values of the fields, with their types.
        inputs: Vec<(Value, TypeId)>,
        /// The enum.
        ty: TypeId,
        /// The variant.
        variant: VariantId,
    },
    /// Calls a constructor.
    Construct {
        /// The arguments, with their types.
        inputs: Vec<(Value, TypeId)>,
        /// The type of the result.
        ty: TypeId,
        /// The term whose constructor it is.
        term: TermId,
        /// Whether the constructor always gives a result.
        infallible: bool,
    },
    /// Names a value as a result of the sequence.
    Return {
        /// Which result.
        index: usize,
        /// Its type.
        ty: TypeId,
        /// The value.
        value: Value,
    },
}

/// A sequence of expression instructions.
#[derive(Clone, Debug)]
pub struct ExprSequence {
    /// The instructions in order.
    pub insts: Vec<ExprInst>,
    /// The position of the rule that the sequence comes from.
    pub pos: Pos,
}

impl ExprSequence {
    /// The type and value of the integer, where the sequence only returns one.
    pub open spec fn const_int(self) -> Option<(TypeId, i64)> {
        if self.insts@.len() == 2 && self.insts@[1] is Return {
            match self.insts@[0] {
                ExprInst::ConstInt { ty, val } => Some((ty, val)),
                _ => None,
            }
        } else {
            None
        }
    }

    /// Returns the type and value of the integer, where the sequence only returns one.
    pub fn is_const_int(&self) -> (r: Option<(TypeId, i64)>)
        ensures
            r == self.const_int(),
    {
        if self.insts.len() == 2 {
            match (&self.insts[0], &self.insts[1]) {
                (ExprInst::ConstInt { ty, val }, ExprInst::Return { .. }) => Some((*ty, *val)),
                _ => None,
            }
        } else {
            None
        }
    }
}

} // verus!
