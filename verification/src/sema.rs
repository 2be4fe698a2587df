//! Types and terms, as the semantic analysis leaves them.

use crate::pos::Pos;
use vstd::prelude::*;
use vstd::string::StringExecFns;

verus! {

/// A name.
#[derive(Clone, Copy, Debug, PartialEq, Eq, Structural)]
pub struct Sym(pub usize);

/// A type.
#[derive(Clone, Copy, Debug, PartialEq, Eq, Structural)]
pub struct TypeId(pub usize);

/// A variant of an enum.
#[derive(Clone, Copy, Debug, PartialEq, Eq, Structural)]
pub struct VariantId(pub usize);

/// A field of a variant.
#[derive(Clone, Copy, Debug, PartialEq, Eq, Structural)]
pub struct FieldId(pub usize);

/// A term.
#[derive(Clone, Copy, Debug, PartialEq, Eq, Structural)]
pub struct TermId(pub usize);

impl Sym {
    /// Returns the place of the name among the names.
    pub fn index(&self) -> (i: usize)
        ensures
            i == self.0,
    {
        self.0
    }
}

impl TypeId {
    /// Returns the place of the type among the types.
    pub fn index(&self) -> (i: usize)
        ensures
            i == self.0,
    {
        self.0
    }
}

impl VariantId {
    /// Returns the place of the variant in its enum.
    pub fn index(&self) -> (i: usize)
        ensures
            i == self.0,
    {
        self.0
    }
}

impl TermId {
    /// Returns the place of the term among the terms.
    pub fn index(&self) -> (i: usize)
        ensures
            i == self.0,
    {
        self.0
    }
}

/// The types of a program, with the names and files that they refer to.
#[derive(Clone, Debug)]
pub struct TypeEnv {
    /// The names of the source files.
    pub filenames: Vec<String>,
    /// The names, by `Sym`.
    pub syms: Vec<String>,
    /// The types, by `TypeId`.
    pub types: Vec<Type>,
}

/// A type.
#[derive(Clone, Debug)]
pub enum Type {
    /// A primitive type, known to Rust under its name.
    Primitive(TypeId, Sym, Pos),
    /// An enum.
    Enum {
        /// Its name.
        name: Sym,
        /// Its identity.
        id: TypeId,
        /// Whether it is declared outside the generated code.
        is_extern: bool,
        /// Its variants, by `VariantId`.
        variants: Vec<Variant>,
        /// Where it is declared.
        pos: Pos,
    },
}

/// A variant of an enum.
#[derive(Clone, Debug)]
pub struct Variant {
    /// Its name in the enum.
    pub name: Sym,
    /// Its name with that of the enum before it.
    pub fullname: Sym,
    /// Its identity.
    pub id: VariantId,
    /// Its fields, by `FieldId`.
    pub fields: Vec<Field>,
}

/// A field of a variant.
#[derive(Clone, Debug)]
pub struct Field {
    /// Its name.
    pub name: Sym,
    /// Its identity.
    pub id: FieldId,
    /// Its type.
    pub ty: TypeId,
}

/// The terms of a program.
#[derive(Clone, Debug)]
pub struct TermEnv {
    /// The terms, by `TermId`.
    pub terms: Vec<Term>,
}

/// A term.
#[derive(Clone, Debug)]
pub struct Term {
    /// Its identity.
    pub id: TermId,
    /// Its name.
    pub name: Sym,
    /// The types of its arguments.
    pub arg_tys: Vec<TypeId>,
    /// The type of its value.
    pub ret_ty: TypeId,
    /// What it stands for.
    pub kind: TermKind,
}

/// What a term stands for.
#[derive(Clone, Debug)]
pub enum TermKind {
    /// A variant of an enum.
    EnumVariant {
        /// The variant.
        variant: VariantId,
    },
    /// A declared term.
    Decl {
        /// How it is built, where it can be.
        constructor_kind: Option<ConstructorKind>,
        /// How it is taken apart, where it can be.
        extractor_kind: Option<ExtractorKind>,
    },
}

/// How a term is built.
#[derive(Clone, Debug)]
pub enum ConstructorKind {
    /// By a function generated from the term's rules.
    InternalConstructor,
    /// By a function of the context.
    ExternalConstructor {
        /// The function's name.
        name: Sym,
    },
}

/// How a term is taken apart.
#[derive(Clone, Debug)]
pub enum ExtractorKind {
    /// By a pattern that stands in its place.
    InternalExtractor,
    /// By a function of the context.
    ExternalExtractor {
        /// The function's name.
        name: Sym,
        /// For each argument of the term, whether the function takes or gives it.
        arg_polarity: Vec<ArgPolarity>,
        /// Whether the function always matches.
        infallible: bool,
    },
}

/// Whether an extractor takes or gives an argument of its term.
#[derive(Clone, Copy, Debug, PartialEq, Eq, Structural)]
pub enum ArgPolarity {
    /// The extractor takes it.
    Input,
    /// The extractor gives it.
    Output,
}

/// The signature of a constructor or an extractor.
#[derive(Clone, Debug)]
pub struct ExternalSig {
    /// The function's name where it is declared.
    pub func_name: String,
    /// The function's name where it is called.
    pub full_name: String,
    /// The types of its parameters.
    pub param_tys: Vec<TypeId>,
    /// The types of its results.
    pub ret_tys: Vec<TypeId>,
    /// Whether it always gives a result.
    pub infallible: bool,
}

/// What a signature holds.
pub struct Signature {
    /// The function's name where it is declared.
    pub func_name: Seq<char>,
    /// The function's name where it is called.
    pub full_name: Seq<char>,
    /// The types of its parameters.
    pub param_tys: Seq<TypeId>,
    /// The types of its results.
    pub ret_tys: Seq<TypeId>,
    /// Whether it always gives a result.
    pub infallible: bool,
}

impl View for ExternalSig {
    type V = Signature;

    open spec fn view(&self) -> Signature {
        Signature {
            func_name: self.func_name@,
            full_name: self.full_name@,
            param_tys: self.param_tys@,
            ret_tys: self.ret_tys@,
            infallible: self.infallible,
        }
    }
}

impl TypeEnv {
    /// Whether `sym` is one of the names.
    pub open spec fn has_sym(self, sym: Sym) -> bool {
        sym.0 < self.syms@.len()
    }

    /// The text of a name.
    pub open spec fn sym_text(self, sym: Sym) -> Seq<char> {
        self.syms@[sym.0 as int]@
    }

    /// Whether `ty` is one of the types.
    pub open spec fn has_type(self, ty: TypeId) -> bool {
        ty.0 < self.types@.len()
    }

    /// The type that `ty` stands for.
    pub open spec fn type_at(self, ty: TypeId) -> Type {
        self.types@[ty.0 as int]
    }

    /// Whether `ty` stands for a primitive type.
    pub open spec fn is_prim(self, ty: TypeId) -> bool {
        self.type_at(ty) is Primitive
    }

    /// Whether `ty` is one of the types, and its name one of the names.
    pub open spec fn has_named_type(self, ty: TypeId) -> bool {
        self.has_type(ty) && self.has_sym(self.type_at(ty).name_sym())
    }
}

impl Type {
    /// The type's name.
    pub open spec fn name_sym(self) -> Sym {
        match self {
            Type::Primitive(_, name, _) => name,
            Type::Enum { name, .. } => name,
        }
    }

    /// Returns the text of the type's name.
    pub fn name<'a>(&self, typeenv: &'a TypeEnv) -> (s: &'a String)
        requires
            typeenv.has_sym(self.name_sym()),
        ensures
            s@ == typeenv.sym_text(self.name_sym()),
    {
        match self {
            Type::Primitive(_, name, _) => &typeenv.syms[name.index()],
            Type::Enum { name, .. } => &typeenv.syms[name.index()],
        }
    }

    /// Returns the variants of an enum.
    pub fn variants(&self) -> (r: Option<&Vec<Variant>>)
        ensures
            r == match *self {
                Type::Enum { variants, .. } => Some(&variants),
                Type::Primitive(..) => None,
            },
    {
        match self {
            Type::Enum { variants, .. } => Some(variants),
            Type::Primitive(..) => None,
        }
    }

    /// Returns whether the type is primitive.
    pub fn is_prim(&self) -> (b: bool)
        ensures
            b == (self is Primitive),
    {
        match self {
            Type::Primitive(..) => true,
            Type::Enum { .. } => false,
        }
    }
}

/// Those of the given arguments whose polarity is `polarity`, in order. Arguments without a
/// polarity and polarities without an argument are left out.
pub open spec fn args_with_polarity(
    args: Seq<TypeId>,
    polarities: Seq<ArgPolarity>,
    polarity: ArgPolarity,
) -> Seq<TypeId>
    decreases args.len(),
{
    if args.len() == 0 || polarities.len() == 0 {
        Seq::empty()
    } else {
        let rest = args_with_polarity(args.skip(1), polarities.skip(1), polarity);
        if polarities[0] == polarity {
            seq![args[0]] + rest
        } else {
            rest
        }
    }
}

impl Term {
    /// How the term is built, where it can be.
    pub open spec fn constructor(self) -> Option<ConstructorKind> {
        match self.kind {
            TermKind::Decl { constructor_kind, .. } => constructor_kind,
            TermKind::EnumVariant { .. } => None,
        }
    }

    /// How the term is taken apart, where it can be.
    pub open spec fn extractor(self) -> Option<ExtractorKind> {
        match self.kind {
            TermKind::Decl { extractor_kind, .. } => extractor_kind,
            TermKind::EnumVariant { .. } => None,
        }
    }

    /// Whether the term's constructor is generated from its rules.
    pub open spec fn is_generated(self) -> bool {
        self.constructor() == Some(ConstructorKind::InternalConstructor)
    }

    /// Whether the name that the term's constructor is called by is there, where it has one.
    pub open spec fn constructor_named(self, typeenv: TypeEnv) -> bool {
        match self.constructor() {
            Some(ConstructorKind::ExternalConstructor { name }) => typeenv.has_sym(name),
            Some(ConstructorKind::InternalConstructor) => typeenv.has_sym(self.name),
            None => true,
        }
    }

    /// Whether the name of the term's external extractor is there, where it has one.
    pub open spec fn extractor_named(self, typeenv: TypeEnv) -> bool {
        match self.extractor() {
            Some(ExtractorKind::ExternalExtractor { name, .. }) => typeenv.has_sym(name),
            _ => true,
        }
    }

    /// The signature of the term's constructor. A function of the context is called as an
    /// associated function and always gives a result; a generated one may give none.
    pub open spec fn constructor_signature(self, typeenv: TypeEnv) -> Option<Signature> {
        match self.constructor() {
            Some(ConstructorKind::ExternalConstructor { name }) => Some(
                Signature {
                    func_name: typeenv.sym_text(name),
                    full_name: "C::"@ + typeenv.sym_text(name),
                    param_tys: self.arg_tys@,
                    ret_tys: seq![self.ret_ty],
                    infallible: true,
                },
            ),
            Some(ConstructorKind::InternalConstructor) => Some(
                Signature {
                    func_name: "constructor_"@ + typeenv.sym_text(self.name),
                    full_name: "constructor_"@ + typeenv.sym_text(self.name),
                    param_tys: self.arg_tys@,
                    ret_tys: seq![self.ret_ty],
                    infallible: false,
                },
            ),
            None => None,
        }
    }

    /// The signature of the term's extractor, where it is a function of the context. It takes
    /// the value of the term first, and then the arguments that it does not give.
    pub open spec fn extractor_signature(self, typeenv: TypeEnv) -> Option<Signature> {
        match self.extractor() {
            Some(ExtractorKind::ExternalExtractor { name, arg_polarity, infallible }) => Some(
                Signature {
                    func_name: typeenv.sym_text(name),
                    full_name: "C::"@ + typeenv.sym_text(name),
                    param_tys: seq![self.ret_ty] + args_with_polarity(
                        self.arg_tys@,
                        arg_polarity@,
                        ArgPolarity::Input,
                    ),
                    ret_tys: args_with_polarity(
                        self.arg_tys@,
                        arg_polarity@,
                        ArgPolarity::Output,
                    ),
                    infallible,
                },
            ),
            _ => None,
        }
    }

    /// Returns whether the term can be built by a function. A variant of an enum is built
    /// without one.
    pub fn has_constructor(&self) -> (b: bool)
        ensures
            b == (self.constructor() is Some),
    {
        match &self.kind {
            TermKind::Decl { constructor_kind: Some(_), .. } => true,
            _ => false,
        }
    }

    /// Returns whether the term is built by a function of the context.
    pub fn has_external_constructor(&self) -> (b: bool)
        ensures
            b == (self.constructor() matches Some(ConstructorKind::ExternalConstructor { .. })),
    {
        match &self.kind {
            TermKind::Decl {
                constructor_kind: Some(ConstructorKind::ExternalConstructor { .. }),
                ..
            } => true,
            _ => false,
        }
    }

    /// Returns whether the term is taken apart by a function of the context.
    pub fn has_external_extractor(&self) -> (b: bool)
        ensures
            b == (self.extractor() matches Some(ExtractorKind::ExternalExtractor { .. })),
    {
        match &self.kind {
            TermKind::Decl {
                extractor_kind: Some(ExtractorKind::ExternalExtractor { .. }),
                ..
            } => true,
            _ => false,
        }
    }

    /// Returns the signature of the term's constructor, where it has one.
    pub fn constructor_sig(&self, typeenv: &TypeEnv) -> (r: Option<ExternalSig>)
        requires
            self.constructor_named(*typeenv),
        ensures
            match r {
                Some(sig) => self.constructor_signature(*typeenv) == Some(sig@),
                None => self.constructor_signature(*typeenv) is None,
            },
    {
        match &self.kind {
            TermKind::Decl {
                constructor_kind: Some(ConstructorKind::ExternalConstructor { name }),
                ..
            } => {
                let func_name = typeenv.syms[name.index()].clone();
                let mut full_name = "C::".to_string();
                full_name.append(func_name.as_str());
                let ret_tys = vec![self.ret_ty];
                assert(ret_tys@ =~= seq![self.ret_ty]);
                Some(
                    ExternalSig {
                        func_name,
                        full_name,
                        param_tys: copy_types(&self.arg_tys),
                        ret_tys,
                        infallible: true,
                    },
                )
            },
            TermKind::Decl {
                constructor_kind: Some(ConstructorKind::InternalConstructor),
                ..
            } => {
                let mut func_name = "constructor_".to_string();
                func_name.append(typeenv.syms[self.name.index()].as_str());
                let full_name = func_name.clone();
                let ret_tys = vec![self.ret_ty];
                assert(ret_tys@ =~= seq![self.ret_ty]);
                Some(
                    ExternalSig {
                        func_name,
                        full_name,
                        param_tys: copy_types(&self.arg_tys),
                        ret_tys,
                        infallible: false,
                    },
                )
            },
            _ => None,
        }
    }

    /// Returns the signature of the term's extractor, where it is a function of the context.
    pub fn extractor_sig(&self, typeenv: &TypeEnv) -> (r: Option<ExternalSig>)
        requires
            self.extractor_named(*typeenv),
        ensures
            match r {
                Some(sig) => self.extractor_signature(*typeenv) == Some(sig@),
                None => self.extractor_signature(*typeenv) is None,
            },
    {
        match &self.kind {
            TermKind::Decl {
                extractor_kind: Some(
                    ExtractorKind::ExternalExtractor { name, arg_polarity, infallible },
                ),
                ..
            } => {
                let func_name = typeenv.syms[name.index()].clone();
                let mut full_name = "C::".to_string();
                full_name.append(func_name.as_str());
                let mut param_tys = vec![self.ret_ty];
                let mut ret_tys: Vec<TypeId> = Vec::new();
                let ghost taken = args_with_polarity(
                    self.arg_tys@,
                    arg_polarity@,
                    ArgPolarity::Input,
                );
                let ghost given = args_with_polarity(
                    self.arg_tys@,
                    arg_polarity@,
                    ArgPolarity::Output,
                );
                let mut i: usize = 0;
                assert(self.arg_tys@.skip(0) =~= self.arg_tys@);
                assert(arg_polarity@.skip(0) =~= arg_polarity@);
                assert(param_tys@ =~= seq![self.ret_ty]);
                while i < self.arg_tys.len() && i < arg_polarity.len()
                    invariant
                        i <= self.arg_tys@.len(),
                        i <= arg_polarity@.len(),
                        param_tys@ + args_with_polarity(
                            self.arg_tys@.skip(i as int),
                            arg_polarity@.skip(i as int),
                            ArgPolarity::Input,
                        ) =~= seq![self.ret_ty] + taken,
                        ret_tys@ + args_with_polarity(
                            self.arg_tys@.skip(i as int),
                            arg_polarity@.skip(i as int),
                            ArgPolarity::Output,
                        ) =~= given,
                    decreases self.arg_tys@.len() - i,
                {
                    proof {
                        assert(self.arg_tys@.skip(i as int).skip(1) =~= self.arg_tys@.skip(i + 1));
                        assert(arg_polarity@.skip(i as int).skip(1) =~= arg_polarity@.skip(i + 1));
                    }
                    match arg_polarity[i] {
                        ArgPolarity::Input => param_tys.push(self.arg_tys[i]),
                        ArgPolarity::Output => ret_tys.push(self.arg_tys[i]),
                    }
                    i += 1;
                }
                assert(param_tys@ =~= seq![self.ret_ty] + taken);
                assert(ret_tys@ =~= given);
                let infallible = *infallible;
                Some(ExternalSig { func_name, full_name, param_tys, ret_tys, infallible })
            },
            _ => None,
        }
    }
}

/// Returns the same types in the same order.
fn copy_types(tys: &Vec<TypeId>) -> (r: Vec<TypeId>)
    ensures
        r@ == tys@,
{
    let r = tys.clone();
    assert(r@ =~= tys@);
    r
}

} // verus!
