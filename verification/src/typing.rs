//! The type model: primitive types, arrow (single-parameter function) types,
//! type errors, and structural unification.

use vstd::prelude::*;

verus! {

/// The primitive types of the language.
///
/// `Halt` is a sentinel: the type of an expression that unconditionally
/// terminates execution (accept or reject). `Void` denotes the absence of a
/// meaningful value, as produced by a statement-position effect.
#[derive(Debug, Clone, Copy, PartialEq, Eq, Structural)]
pub enum TypePrimitive {
    Void,
    UInt64,
    Byteslice,
    Halt,
}

impl TypePrimitive {
    /// The fixed textual representation of the primitive.
    pub open spec fn text_spec(self) -> Seq<char> {
        match self {
            TypePrimitive::Void => "<void>"@,
            TypePrimitive::UInt64 => "int"@,
            TypePrimitive::Byteslice => "bytes"@,
            TypePrimitive::Halt => "<halt>"@,
        }
    }

    /// Renders the primitive as its fixed textual representation.
    pub fn text(&self) -> (r: &'static str)
        ensures
            r@ == self.text_spec(),
    {
        match self {
            TypePrimitive::Void => "<void>",
            TypePrimitive::UInt64 => "int",
            TypePrimitive::Byteslice => "bytes",
            TypePrimitive::Halt => "<halt>",
        }
    }

    /// Parses one of the four source-level type names, exactly and
    /// case-sensitively.
    pub fn try_from(s: &str) -> (r: Result<TypePrimitive, ()>)
        ensures
            s@ == "Void"@ ==> r == Ok::<TypePrimitive, ()>(TypePrimitive::Void),
            s@ == "UInt64"@ ==> r == Ok::<TypePrimitive, ()>(TypePrimitive::UInt64),
            s@ == "Byteslice"@ ==> r == Ok::<TypePrimitive, ()>(TypePrimitive::Byteslice),
            s@ == "Halt"@ ==> r == Ok::<TypePrimitive, ()>(TypePrimitive::Halt),
            s@ != "Void"@ && s@ != "UInt64"@ && s@ != "Byteslice"@ && s@ != "Halt"@
                ==> r == Err::<TypePrimitive, ()>(()),
    {
        proof {
            reveal_strlit("Void");
            reveal_strlit("UInt64");
            reveal_strlit("Byteslice");
            reveal_strlit("Halt");
            assert("Void"@.len() == 4);
            assert("UInt64"@.len() == 6);
            assert("Byteslice"@.len() == 9);
            assert("Halt"@[0] == 'H');
            assert("Void"@[0] == 'V');
        }
        if crate::utils::eq_str(s, "Void") {
            Ok(TypePrimitive::Void)
        } else if crate::utils::eq_str(s, "UInt64") {
            Ok(TypePrimitive::UInt64)
        } else if crate::utils::eq_str(s, "Byteslice") {
            Ok(TypePrimitive::Byteslice)
        } else if crate::utils::eq_str(s, "Halt") {
            Ok(TypePrimitive::Halt)
        } else {
            Err(())
        }
    }
}

/// A type: either a primitive or the type of a single-parameter function.
/// Arrow types nest to express curried multi-argument application.
#[derive(Debug)]
pub enum TypeEnum {
    Simple(TypePrimitive),
    Arrow(Box<TypeEnum>, Box<TypeEnum>),
}

/// Errors raised during type resolution.
#[derive(Debug, PartialEq)]
pub enum TypeError {
    /// Two types were required to agree but are structurally incompatible;
    /// the first is the expected side, the second the actual one.
    Mismatch(TypeEnum, TypeEnum),
    /// An application whose callee does not have an arrow type.
    NonFunctionApplication(TypeEnum),
    /// A variable reference that is not bound in the type context.
    UnboundVariable,
    /// A conditional with no arms.
    EmptyCond,
    /// A sequence with no sub-expressions.
    EmptySequence,
}

/// Structural unification at the specification level. Two `Simple` types
/// unify exactly when their primitives are identical; two `Arrow` types unify
/// exactly when both their parameter and body types unify; a `Simple` and an
/// `Arrow` never unify. On success the agreed type is returned; on failure
/// the first structural disagreement is reported as a `Mismatch`.
pub open spec fn spec_unify(a: TypeEnum, b: TypeEnum) -> Result<TypeEnum, TypeError>
    decreases a,
{
    match (a, b) {
        (TypeEnum::Simple(p), TypeEnum::Simple(q)) => if p == q {
            Ok(TypeEnum::Simple(p))
        } else {
            Err(TypeError::Mismatch(TypeEnum::Simple(p), TypeEnum::Simple(q)))
        },
        (TypeEnum::Arrow(p1, b1), TypeEnum::Arrow(p2, b2)) => match spec_unify(*p1, *p2) {
            Ok(p) => match spec_unify(*b1, *b2) {
                Ok(bb) => Ok(TypeEnum::Arrow(Box::new(p), Box::new(bb))),
                Err(e) => Err(e),
            },
            Err(e) => Err(e),
        },
        (x, y) => Err(TypeError::Mismatch(x, y)),
    }
}

/// Unification succeeds exactly on structurally equal types, and the agreed
/// type is then the input itself: unification never invents or refines a
/// type, so a successful `unify` leaves both sides observably unchanged and
/// equal to what was passed in, and a failed one can be retried with the very
/// same operands.
pub proof fn lemma_unify_equal_types(a: TypeEnum, b: TypeEnum)
    ensures
        spec_unify(a, b) is Ok <==> a == b,
        a == b ==> spec_unify(a, b) == Ok::<TypeEnum, TypeError>(a),
    decreases a,
{
    match (a, b) {
        (TypeEnum::Simple(p), TypeEnum::Simple(q)) => {}
        (TypeEnum::Arrow(p1, b1), TypeEnum::Arrow(p2, b2)) => {
            lemma_unify_equal_types(*p1, *p2);
            lemma_unify_equal_types(*b1, *b2);
        }
        (x, y) => {}
    }
}

impl TypeEnum {
    /// Builds a structurally equal copy of the type.
    pub fn duplicate(&self) -> (r: TypeEnum)
        ensures
            r == *self,
        decreases self,
    {
        match self {
            TypeEnum::Simple(p) => TypeEnum::Simple(*p),
            TypeEnum::Arrow(p, b) => TypeEnum::Arrow(
                Box::new((**p).duplicate()),
                Box::new((**b).duplicate()),
            ),
        }
    }

    /// Structural comparison backing `unify`; reports the first disagreement.
    fn unify_check(&self, other: &TypeEnum) -> (r: Result<(), TypeError>)
        ensures
            r is Ok <==> spec_unify(*self, *other) is Ok,
            r is Err ==> spec_unify(*self, *other) == Err::<TypeEnum, TypeError>(r->Err_0),
        decreases self,
    {
        match (self, other) {
            (TypeEnum::Simple(p), TypeEnum::Simple(q)) => if p == q {
                Ok(())
            } else {
                Err(TypeError::Mismatch(TypeEnum::Simple(*p), TypeEnum::Simple(*q)))
            },
            (TypeEnum::Arrow(p1, b1), TypeEnum::Arrow(p2, b2)) => {
                match (**p1).unify_check(&**p2) {
                    Ok(()) => (**b1).unify_check(&**b2),
                    Err(e) => Err(e),
                }
            }
            _ => Err(TypeError::Mismatch(self.duplicate(), other.duplicate())),
        }
    }

    /// Structural unification. Succeeds exactly when the two types are
    /// structurally equal, in which case both sides already are the agreed
    /// canonical form; neither side is ever left partially modified.
    pub fn unify(&mut self, other: &mut TypeEnum) -> (r: Result<(), TypeError>)
        ensures
            *final(self) == *old(self),
            *final(other) == *old(other),
            r is Ok <==> spec_unify(*old(self), *old(other)) is Ok,
            r is Ok <==> *old(self) == *old(other),
            r is Err ==> spec_unify(*old(self), *old(other)) == Err::<TypeEnum, TypeError>(
                r->Err_0,
            ),
    {
        proof {
            lemma_unify_equal_types(*self, *other);
        }
        self.unify_check(other)
    }
}

impl PartialEq for TypeEnum {
    fn eq(&self, other: &TypeEnum) -> (r: bool)
        decreases self,
    {
        match (self, other) {
            (TypeEnum::Simple(p), TypeEnum::Simple(q)) => p == q,
            (TypeEnum::Arrow(p1, b1), TypeEnum::Arrow(p2, b2)) => {
                **p1 == **p2 && **b1 == **b2
            }
            _ => false,
        }
    }
}

impl vstd::std_specs::cmp::PartialEqSpecImpl for TypeEnum {
    open spec fn obeys_eq_spec() -> bool {
        true
    }

    open spec fn eq_spec(&self, other: &TypeEnum) -> bool {
        *self == *other
    }
}

} // verus!
