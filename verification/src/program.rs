//! Program assembly: a single root expression driven through resolution and
//! code generation into a complete, directly executable instruction listing.

use vstd::prelude::*;
use vstd::string::StringExecFns;

use crate::compile::{spec_compile, CompilationError};
use crate::context::{assoc_map, assoc_map_view, CompilationContext, TypeContext};
use crate::expression::Expr;
use crate::resolve::spec_resolve;
use crate::typing::{TypeEnum, TypeError, TypePrimitive};

verus! {

/// Why a program could not be assembled: a user-facing type error found
/// during resolution, or an internal code-generation error. The two
/// families are never conflated.
#[derive(Debug, PartialEq)]
pub enum ProgramError {
    Type(TypeError),
    Compilation(CompilationError),
}

/// The complete listing of a program whose root is `root`: the fixed
/// target-version pragma header, then the root's fragment, joined by the
/// instruction separator. A program must resolve to the sentinel type
/// `Halt` — it has to end in an accept/reject decision — and nothing is
/// emitted for one that does not. Both resolution and code generation start
/// from empty environments and the label counter at zero, so the listing is
/// a deterministic function of the tree alone.
pub open spec fn spec_program_compile(root: Expr) -> Result<Seq<char>, ProgramError> {
    match spec_resolve(root, Map::empty()) {
        Err(e) => Err(ProgramError::Type(e)),
        Ok(t) => if t != TypeEnum::Simple(TypePrimitive::Halt) {
            Err(ProgramError::Type(TypeError::Mismatch(TypeEnum::Simple(TypePrimitive::Halt), t)))
        } else {
            match spec_compile(root, Map::empty(), None, 0) {
                Ok(p) => Ok("#pragma version 5\n"@ + p.0),
                Err(e) => Err(ProgramError::Compilation(e)),
            }
        },
    }
}

/// A program whose root does not resolve to the sentinel type `Halt` is
/// rejected before any code is emitted: whatever other type the root has,
/// assembly fails with the mismatch against `Halt`.
pub proof fn lemma_non_halt_program_rejected(root: Expr, t: TypeEnum)
    requires
        spec_resolve(root, Map::empty()) == Ok::<TypeEnum, TypeError>(t),
        t != TypeEnum::Simple(TypePrimitive::Halt),
    ensures
        spec_program_compile(root) == Err::<Seq<char>, ProgramError>(
            ProgramError::Type(TypeError::Mismatch(TypeEnum::Simple(TypePrimitive::Halt), t)),
        ),
{
}

/// A program: a single owned root expression.
#[derive(Debug)]
pub struct Program {
    pub root: Expr,
}

impl Program {
    /// Type-checks the root under an empty context, requires its type to be
    /// `Halt`, and emits the complete listing with the version pragma
    /// header. No code is emitted for a program that fails type-checking.
    pub fn compile(&self) -> (r: Result<String, ProgramError>)
        ensures
            match spec_program_compile(self.root) {
                Ok(text) => r is Ok && r->Ok_0@ == text,
                Err(e) => r == Err::<String, ProgramError>(e),
            },
    {
        let mut tctx = TypeContext::default();
        proof {
            assert(assoc_map(tctx.entries@) =~= Map::<Seq<char>, TypeEnum>::empty());
        }
        let t = match self.root.resolve(&mut tctx) {
            Ok(t) => t,
            Err(e) => {
                return Err(ProgramError::Type(e));
            }
        };
        let mut expected = TypeEnum::Simple(TypePrimitive::Halt);
        let mut actual = t;
        match expected.unify(&mut actual) {
            Ok(()) => {}
            Err(e) => {
                return Err(ProgramError::Type(e));
            }
        }
        let mut cctx = CompilationContext::default();
        proof {
            assert(assoc_map_view(cctx.bindings@) =~= Map::<Seq<char>, Seq<char>>::empty());
        }
        let frag = match self.root.compile(&mut cctx, None) {
            Ok(f) => f,
            Err(e) => {
                return Err(ProgramError::Compilation(e));
            }
        };
        let mut s = String::from_str("#pragma version 5\n");
        s.append(frag.as_str());
        Ok(s)
    }
}

} // verus!
