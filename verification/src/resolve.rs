//! Type resolution: the pure, context-only phase of the expression contract.
//!
//! [`spec_resolve`] is the mathematical definition of the type of an
//! expression under a name-to-type environment; the executable `resolve`
//! methods compute exactly that value and leave the threaded context as they
//! found it.

use vstd::prelude::*;

use crate::context::TypeContext;
use crate::expression::{Apply, Binary, BinaryOp, Cond, Expr, Lambda, OnComplete, Primitive, Ret,
    Sequence, TxnField};
use crate::typing::{spec_unify, TypeEnum, TypeError, TypePrimitive};

verus! {

broadcast use
    vstd::std_specs::vec::axiom_vec_index_decreases,
    vstd::std_specs::vec::axiom_vec_decreases_to_view,
    vstd::seq::axiom_seq_index_decreases,
;

/// The fixed type of each transaction field.
pub open spec fn txn_field_type(f: TxnField) -> TypePrimitive {
    match f {
        TxnField::Sender => TypePrimitive::Byteslice,
        TxnField::Receiver => TypePrimitive::Byteslice,
        TxnField::Amount => TypePrimitive::UInt64,
        TxnField::Fee => TypePrimitive::UInt64,
        TxnField::ApplicationId => TypePrimitive::UInt64,
        TxnField::OnCompletion => TypePrimitive::UInt64,
    }
}

/// The result type of a two-operand operator applied to operands of the
/// given types. `Equals` asks its operands to agree with each other; every
/// other operator asks both operands to be `UInt64`. The result is always
/// `UInt64`.
pub open spec fn spec_binary_result(op: BinaryOp, lt: TypeEnum, rt: TypeEnum) -> Result<
    TypeEnum,
    TypeError,
> {
    if op == BinaryOp::Equals {
        match spec_unify(lt, rt) {
            Ok(_) => Ok(TypeEnum::Simple(TypePrimitive::UInt64)),
            Err(e) => Err(e),
        }
    } else {
        match spec_unify(TypeEnum::Simple(TypePrimitive::UInt64), lt) {
            Ok(_) => match spec_unify(TypeEnum::Simple(TypePrimitive::UInt64), rt) {
                Ok(_) => Ok(TypeEnum::Simple(TypePrimitive::UInt64)),
                Err(e) => Err(e),
            },
            Err(e) => Err(e),
        }
    }
}

/// The type of an expression under the environment `m`, or the first type
/// error found. Resolution is root-to-leaves: an application resolves its
/// callee and argument, requires the callee's type to be an arrow, and
/// unifies the arrow's parameter type with the argument's type; its own type
/// is the arrow's body type.
pub open spec fn spec_resolve(e: Expr, m: Map<Seq<char>, TypeEnum>) -> Result<TypeEnum, TypeError>
    decreases e, 0int,
{
    match e {
        Expr::Primitive(p) => match p {
            Primitive::UInt64(_) => Ok(TypeEnum::Simple(TypePrimitive::UInt64)),
            Primitive::Byteslice(_) => Ok(TypeEnum::Simple(TypePrimitive::Byteslice)),
        },
        Expr::Var(n) => if m.contains_key(n@) {
            Ok(m[n@])
        } else {
            Err(TypeError::UnboundVariable)
        },
        Expr::Lambda(l) => match spec_resolve(*l.body, m.insert(l.param@, *l.param_type)) {
            Ok(bt) => Ok(TypeEnum::Arrow(l.param_type, Box::new(bt))),
            Err(e) => Err(e),
        },
        Expr::Apply(a) => match spec_resolve(*a.0, m) {
            Ok(ft) => match spec_resolve(*a.1, m) {
                Ok(at) => match ft {
                    TypeEnum::Arrow(p, b) => match spec_unify(*p, at) {
                        Ok(_) => Ok(*b),
                        Err(e) => Err(e),
                    },
                    _ => Err(TypeError::NonFunctionApplication(ft)),
                },
                Err(e) => Err(e),
            },
            Err(e) => Err(e),
        },
        Expr::Binary(b) => match spec_resolve(*b.left, m) {
            Ok(lt) => match spec_resolve(*b.right, m) {
                Ok(rt) => spec_binary_result(b.op, lt, rt),
                Err(e) => Err(e),
            },
            Err(e) => Err(e),
        },
        Expr::Cond(c) => spec_resolve_arms(c.arms@, 0, m, None),
        Expr::Sequence(s) => spec_resolve_seq(s.exprs@, 0, m),
        Expr::Txn(f) => Ok(TypeEnum::Simple(txn_field_type(f))),
        Expr::OnComplete(_) => Ok(TypeEnum::Simple(TypePrimitive::UInt64)),
        Expr::Ret(_) => Ok(TypeEnum::Simple(TypePrimitive::Halt)),
    }
}

/// Resolution of the arms of a conditional from index `i` on. Every guard
/// must agree with `UInt64`; the bodies must all agree on one result type,
/// accumulated in `acc`. A conditional with no arms at all has no type.
pub open spec fn spec_resolve_arms(
    arms: Seq<(Expr, Expr)>,
    i: int,
    m: Map<Seq<char>, TypeEnum>,
    acc: Option<TypeEnum>,
) -> Result<TypeEnum, TypeError>
    decreases arms, arms.len() - i,
{
    if i < 0 || i >= arms.len() {
        match acc {
            Some(t) => Ok(t),
            None => Err(TypeError::EmptyCond),
        }
    } else {
        match spec_resolve(arms[i].0, m) {
            Ok(gt) => match spec_unify(TypeEnum::Simple(TypePrimitive::UInt64), gt) {
                Ok(_) => match spec_resolve(arms[i].1, m) {
                    Ok(bt) => match acc {
                        None => spec_resolve_arms(arms, i + 1, m, Some(bt)),
                        Some(t) => match spec_unify(t, bt) {
                            Ok(u) => spec_resolve_arms(arms, i + 1, m, Some(u)),
                            Err(e) => Err(e),
                        },
                    },
                    Err(e) => Err(e),
                },
                Err(e) => Err(e),
            },
            Err(e) => Err(e),
        }
    }
}

/// Resolution of a sequence from index `i` on: every sub-expression before
/// the last must be of type `Void`; the type of the last is the type of the
/// whole. An empty sequence has no type.
pub open spec fn spec_resolve_seq(exprs: Seq<Expr>, i: int, m: Map<Seq<char>, TypeEnum>) -> Result<
    TypeEnum,
    TypeError,
>
    decreases exprs, exprs.len() - i,
{
    if i < 0 || i >= exprs.len() {
        Err(TypeError::EmptySequence)
    } else if i == exprs.len() - 1 {
        spec_resolve(exprs[i], m)
    } else {
        match spec_resolve(exprs[i], m) {
            Ok(t) => match spec_unify(TypeEnum::Simple(TypePrimitive::Void), t) {
                Ok(_) => spec_resolve_seq(exprs, i + 1, m),
                Err(e) => Err(e),
            },
            Err(e) => Err(e),
        }
    }
}

impl Expr {
    /// Computes the type of the expression under the given context, leaving
    /// the context as it was.
    pub fn resolve(&self, ctx: &mut TypeContext) -> (r: Result<TypeEnum, TypeError>)
        ensures
            final(ctx).entries@ == old(ctx).entries@,
            r == spec_resolve(*self, old(ctx).view_map()),
        decreases self, 1int,
    {
        match self {
            Expr::Primitive(p) => match p {
                Primitive::UInt64(_) => Ok(TypeEnum::Simple(TypePrimitive::UInt64)),
                Primitive::Byteslice(_) => Ok(TypeEnum::Simple(TypePrimitive::Byteslice)),
            },
            Expr::Var(n) => match crate::context::assoc_get(&ctx.entries, n.as_str()) {
                Some(t) => Ok(t.duplicate()),
                None => Err(TypeError::UnboundVariable),
            },
            Expr::Lambda(l) => l.resolve(ctx),
            Expr::Apply(a) => a.resolve(ctx),
            Expr::Binary(b) => b.resolve(ctx),
            Expr::Cond(c) => c.resolve(ctx),
            Expr::Sequence(s) => s.resolve(ctx),
            Expr::Txn(f) => Ok(TypeEnum::Simple(f.field_type())),
            Expr::OnComplete(oc) => oc.resolve(ctx),
            Expr::Ret(rr) => rr.resolve(ctx),
        }
    }
}

impl TxnField {
    /// The fixed type of the field.
    pub fn field_type(&self) -> (r: TypePrimitive)
        ensures
            r == txn_field_type(*self),
    {
        match self {
            TxnField::Sender => TypePrimitive::Byteslice,
            TxnField::Receiver => TypePrimitive::Byteslice,
            TxnField::Amount => TypePrimitive::UInt64,
            TxnField::Fee => TypePrimitive::UInt64,
            TxnField::ApplicationId => TypePrimitive::UInt64,
            TxnField::OnCompletion => TypePrimitive::UInt64,
        }
    }
}

impl Lambda {
    /// The type of a lambda is the arrow from its declared parameter type to
    /// the type of its body, resolved with the parameter bound.
    pub fn resolve(&self, ctx: &mut TypeContext) -> (r: Result<TypeEnum, TypeError>)
        ensures
            final(ctx).entries@ == old(ctx).entries@,
            r == spec_resolve(Expr::Lambda(*self), old(ctx).view_map()),
        decreases self, 0int,
    {
        let bound_name = self.param.clone();
        let bound_type = self.param_type.duplicate();
        ctx.entries.push((bound_name, bound_type));
        proof {
            assert(ctx.entries@.drop_last() =~= old(ctx).entries@);
        }
        let r = self.body.resolve(ctx);
        let _ = ctx.entries.pop();
        proof {
            assert(ctx.entries@ =~= old(ctx).entries@);
        }
        match r {
            Ok(bt) => Ok(
                TypeEnum::Arrow(Box::new(self.param_type.duplicate()), Box::new(bt)),
            ),
            Err(e) => Err(e),
        }
    }
}

impl Apply {
    /// The callee must resolve to an arrow type whose parameter type agrees
    /// with the argument's type; the application's type is the arrow's body
    /// type. A callee of any other type is a `NonFunctionApplication` error.
    pub fn resolve(&self, ctx: &mut TypeContext) -> (r: Result<TypeEnum, TypeError>)
        ensures
            final(ctx).entries@ == old(ctx).entries@,
            r == spec_resolve(Expr::Apply(*self), old(ctx).view_map()),
        decreases self, 0int,
    {
        let f_type = match self.0.resolve(ctx) {
            Ok(t) => t,
            Err(e) => {
                return Err(e);
            }
        };
        let arg_type = match self.1.resolve(ctx) {
            Ok(t) => t,
            Err(e) => {
                return Err(e);
            }
        };
        match f_type {
            TypeEnum::Arrow(param_type, body_type) => {
                let mut expected = *param_type;
                let mut actual = arg_type;
                match expected.unify(&mut actual) {
                    Ok(()) => Ok(*body_type),
                    Err(e) => Err(e),
                }
            }
            other => Err(TypeError::NonFunctionApplication(other)),
        }
    }
}

impl Binary {
    /// Both operands are resolved; the operator's fixed signature then
    /// decides which agreements are required. The result is `UInt64`.
    pub fn resolve(&self, ctx: &mut TypeContext) -> (r: Result<TypeEnum, TypeError>)
        ensures
            final(ctx).entries@ == old(ctx).entries@,
            r == spec_resolve(Expr::Binary(*self), old(ctx).view_map()),
        decreases self, 0int,
    {
        let lt = match self.left.resolve(ctx) {
            Ok(t) => t,
            Err(e) => {
                return Err(e);
            }
        };
        let rt = match self.right.resolve(ctx) {
            Ok(t) => t,
            Err(e) => {
                return Err(e);
            }
        };
        if self.op == BinaryOp::Equals {
            let mut left_type = lt;
            let mut right_type = rt;
            match left_type.unify(&mut right_type) {
                Ok(()) => Ok(TypeEnum::Simple(TypePrimitive::UInt64)),
                Err(e) => Err(e),
            }
        } else {
            let mut expected = TypeEnum::Simple(TypePrimitive::UInt64);
            let mut left_type = lt;
            match expected.unify(&mut left_type) {
                Ok(()) => {
                    let mut expected_r = TypeEnum::Simple(TypePrimitive::UInt64);
                    let mut right_type = rt;
                    match expected_r.unify(&mut right_type) {
                        Ok(()) => Ok(TypeEnum::Simple(TypePrimitive::UInt64)),
                        Err(e) => Err(e),
                    }
                }
                Err(e) => Err(e),
            }
        }
    }
}

/// Resolves the arms of a conditional from index `i` on, carrying the type
/// the bodies so far have agreed on.
fn resolve_arms(
    arms: &Vec<(Expr, Expr)>,
    i: usize,
    ctx: &mut TypeContext,
    acc: Option<TypeEnum>,
) -> (r: Result<TypeEnum, TypeError>)
    requires
        i <= arms@.len(),
    ensures
        final(ctx).entries@ == old(ctx).entries@,
        r == spec_resolve_arms(arms@, i as int, old(ctx).view_map(), acc),
    decreases *arms, arms@.len() - i,
{
    if i == arms.len() {
        match acc {
            Some(t) => Ok(t),
            None => Err(TypeError::EmptyCond),
        }
    } else {
        let gt = match arms[i].0.resolve(ctx) {
            Ok(t) => t,
            Err(e) => {
                return Err(e);
            }
        };
        let mut expected = TypeEnum::Simple(TypePrimitive::UInt64);
        let mut guard_type = gt;
        match expected.unify(&mut guard_type) {
            Ok(()) => {}
            Err(e) => {
                return Err(e);
            }
        }
        let bt = match arms[i].1.resolve(ctx) {
            Ok(t) => t,
            Err(e) => {
                return Err(e);
            }
        };
        let new_acc = match acc {
            None => bt,
            Some(t) => {
                let mut agreed = t;
                let mut body_type = bt;
                proof {
                    crate::typing::lemma_unify_equal_types(agreed, body_type);
                }
                match agreed.unify(&mut body_type) {
                    Ok(()) => agreed,
                    Err(e) => {
                        return Err(e);
                    }
                }
            }
        };
        resolve_arms(arms, i + 1, ctx, Some(new_acc))
    }
}

/// Resolves a sequence from index `i` on.
fn resolve_seq(exprs: &Vec<Expr>, i: usize, ctx: &mut TypeContext) -> (r: Result<
    TypeEnum,
    TypeError,
>)
    requires
        i <= exprs@.len(),
    ensures
        final(ctx).entries@ == old(ctx).entries@,
        r == spec_resolve_seq(exprs@, i as int, old(ctx).view_map()),
    decreases *exprs, exprs@.len() - i,
{
    if i >= exprs.len() {
        Err(TypeError::EmptySequence)
    } else if i == exprs.len() - 1 {
        exprs[i].resolve(ctx)
    } else {
        let t = match exprs[i].resolve(ctx) {
            Ok(t) => t,
            Err(e) => {
                return Err(e);
            }
        };
        let mut expected = TypeEnum::Simple(TypePrimitive::Void);
        let mut actual = t;
        match expected.unify(&mut actual) {
            Ok(()) => resolve_seq(exprs, i + 1, ctx),
            Err(e) => Err(e),
        }
    }
}

impl Cond {
    /// Every guard must agree with `UInt64` and the arm bodies must agree on
    /// one result type; a conditional with no arms is rejected.
    pub fn resolve(&self, ctx: &mut TypeContext) -> (r: Result<TypeEnum, TypeError>)
        ensures
            final(ctx).entries@ == old(ctx).entries@,
            r == spec_resolve(Expr::Cond(*self), old(ctx).view_map()),
        decreases self, 0int,
    {
        resolve_arms(&self.arms, 0, ctx, None)
    }
}

impl Sequence {
    /// Every sub-expression before the last must be of type `Void`; the
    /// type of the last is the type of the whole. An empty sequence is
    /// rejected.
    pub fn resolve(&self, ctx: &mut TypeContext) -> (r: Result<TypeEnum, TypeError>)
        ensures
            final(ctx).entries@ == old(ctx).entries@,
            r == spec_resolve(Expr::Sequence(*self), old(ctx).view_map()),
        decreases self, 0int,
    {
        resolve_seq(&self.exprs, 0, ctx)
    }
}

impl OnComplete {
    /// A completion-action constant is always of type `UInt64`, independent
    /// of context.
    pub fn resolve(&self, _context: &TypeContext) -> (r: Result<TypeEnum, TypeError>)
        ensures
            r == Ok::<TypeEnum, TypeError>(TypeEnum::Simple(TypePrimitive::UInt64)),
    {
        Ok(TypeEnum::Simple(TypePrimitive::UInt64))
    }
}

impl Ret {
    /// A terminal accept/reject is always of type `Halt`, independent of
    /// context.
    pub fn resolve(&self, _context: &TypeContext) -> (r: Result<TypeEnum, TypeError>)
        ensures
            r == Ok::<TypeEnum, TypeError>(TypeEnum::Simple(TypePrimitive::Halt)),
    {
        Ok(TypeEnum::Simple(TypePrimitive::Halt))
    }
}

/// Application over a callee of any concrete non-arrow type always fails
/// resolution with `NonFunctionApplication`, whatever primitive that type
/// is, as soon as callee and argument themselves resolve.
pub proof fn lemma_apply_non_function(
    f: Expr,
    arg: Expr,
    m: Map<Seq<char>, TypeEnum>,
    p: TypePrimitive,
)
    requires
        spec_resolve(f, m) == Ok::<TypeEnum, TypeError>(TypeEnum::Simple(p)),
        spec_resolve(arg, m) is Ok,
    ensures
        spec_resolve(Expr::Apply(Apply(Box::new(f), Box::new(arg))), m) == Err::<
            TypeEnum,
            TypeError,
        >(TypeError::NonFunctionApplication(TypeEnum::Simple(p))),
{
}

/// A conditional with zero arms is never accepted: it fails resolution with
/// `EmptyCond` under every context.
pub proof fn lemma_empty_cond_rejected(c: Cond, m: Map<Seq<char>, TypeEnum>)
    requires
        c.arms@.len() == 0,
    ensures
        spec_resolve(Expr::Cond(c), m) == Err::<TypeEnum, TypeError>(TypeError::EmptyCond),
{
    assert(spec_resolve(Expr::Cond(c), m) == spec_resolve_arms(c.arms@, 0, m, None));
    assert(spec_resolve_arms(c.arms@, 0, m, None) == Err::<TypeEnum, TypeError>(
        TypeError::EmptyCond,
    ));
}

} // verus!
