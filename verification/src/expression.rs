//! The expression abstraction: a closed set of expression variants, each
//! supporting the two-phase contract of type resolution ([`crate::resolve`])
//! and code generation ([`crate::compile`]).
//!
//! The tree is immutable and strictly hierarchical: every node exclusively
//! owns its children. The target machine has no function-call stack, so
//! parameterized computation is expressed with single-argument, non-recursive
//! lambdas that are statically applied: `Apply` compiles its argument first
//! and the callee's binder splices that fragment in at each use of the
//! parameter.

use vstd::prelude::*;
use vstd::string::StrSliceExecFns;
use vstd::string::StringSliceAdditionalSpecFns;

use crate::typing::TypeEnum;

verus! {

/// A literal value: an unsigned 64-bit integer or a byte string.
#[derive(Debug, PartialEq)]
pub enum Primitive {
    UInt64(u64),
    Byteslice(Vec<u8>),
}

impl Primitive {
    /// Builds the byte-string literal whose bytes are the UTF-8 encoding of
    /// the given text, as the quoted literal form of the grammar produces.
    pub fn from_text(s: &str) -> (r: Primitive)
        ensures
            r matches Primitive::Byteslice(v) && v@ == s.spec_bytes(),
    {
        Primitive::Byteslice(s.as_bytes_vec())
    }
}

/// The terminal accept/reject markers: an expression of type `Halt` that
/// pushes the decision and returns from the program.
#[derive(Debug, Clone, Copy, PartialEq, Eq, Structural)]
pub enum Ret {
    Approve,
    Reject,
}

impl Ret {
    /// Parses a terminal marker from its variant name, exactly and
    /// case-sensitively.
    pub fn try_from(s: &str) -> (r: Result<Ret, ()>)
        ensures
            s@ == "Approve"@ ==> r == Ok::<Ret, ()>(Ret::Approve),
            s@ == "Reject"@ ==> r == Ok::<Ret, ()>(Ret::Reject),
            s@ != "Approve"@ && s@ != "Reject"@ ==> r == Err::<Ret, ()>(()),
    {
        proof {
            reveal_strlit("Approve");
            reveal_strlit("Reject");
            assert("Approve"@.len() == 7);
            assert("Reject"@.len() == 6);
        }
        if crate::utils::eq_str(s, "Approve") {
            Ok(Ret::Approve)
        } else if crate::utils::eq_str(s, "Reject") {
            Ok(Ret::Reject)
        } else {
            Err(())
        }
    }
}

/// The completion-action constants of the target runtime, each of type
/// `UInt64` with a fixed, distinct encoding.
#[derive(Debug, Clone, Copy, PartialEq, Eq, Structural)]
pub enum OnComplete {
    NoOp,
    OptIn,
    CloseOut,
    ClearState,
    UpdateApplication,
    DeleteApplication,
}

/// The readable fields of the executing transaction, each with a fixed type.
#[derive(Debug, Clone, Copy, PartialEq, Eq, Structural)]
pub enum TxnField {
    Sender,
    Receiver,
    Amount,
    Fee,
    ApplicationId,
    OnCompletion,
}

/// The two-operand primitive operators.
#[derive(Debug, Clone, Copy, PartialEq, Eq, Structural)]
pub enum BinaryOp {
    Plus,
    Minus,
    Mult,
    Div,
    Equals,
    Less,
    And,
    Or,
}

/// Single-argument application of a callee expression to an argument
/// expression.
#[derive(Debug, PartialEq)]
pub struct Apply(pub Box<Expr>, pub Box<Expr>);

/// A single-parameter, non-recursive function: the only binder of the
/// language. Its parameter type is written explicitly, and the function is
/// consumed by the application that supplies its argument.
#[derive(Debug, PartialEq)]
pub struct Lambda {
    pub param: String,
    pub param_type: Box<TypeEnum>,
    pub body: Box<Expr>,
}

/// A two-operand primitive operation over its owned operands.
#[derive(Debug, PartialEq)]
pub struct Binary {
    pub op: BinaryOp,
    pub left: Box<Expr>,
    pub right: Box<Expr>,
}

/// An ordered list of guard/branch arms. Guards are integers in the
/// boolean-as-integer convention; the arm bodies must agree on one result
/// type. A conditional with no arms is malformed and rejected.
#[derive(Debug, PartialEq)]
pub struct Cond {
    pub arms: Vec<(Expr, Expr)>,
}

/// An ordered sequence of effectful sub-expressions; its value is the value
/// of the last one, and every earlier one must be of type `Void`.
#[derive(Debug, PartialEq)]
pub struct Sequence {
    pub exprs: Vec<Expr>,
}

/// An expression tree node.
#[derive(Debug, PartialEq)]
pub enum Expr {
    /// A literal value.
    Primitive(Primitive),
    /// A named reference, resolved through the context; a lookup only,
    /// never owning a binding.
    Var(String),
    /// A single-parameter function.
    Lambda(Lambda),
    /// Application of a callee to one argument.
    Apply(Apply),
    /// A two-operand primitive operation.
    Binary(Binary),
    /// Guard/branch arms with flat, label-based control flow.
    Cond(Cond),
    /// An ordered sequence of effectful sub-expressions.
    Sequence(Sequence),
    /// A read of a field of the executing transaction.
    Txn(TxnField),
    /// A completion-action constant.
    OnComplete(OnComplete),
    /// Terminal accept or reject.
    Ret(Ret),
}

} // verus!
