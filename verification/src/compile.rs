//! Code generation: the second phase of the expression contract.
//!
//! [`spec_compile`] defines the emitted assembly fragment of an expression
//! mathematically, together with the label counter it leaves behind; the
//! executable `compile` methods produce exactly that fragment. Instructions
//! are separated by a newline.
//!
//! The machine has no call stack, so an application does not push its
//! argument for a callee to pop: `Apply` compiles the argument first and
//! hands the finished fragment to its callee, whose binder records it in the
//! compilation context; each use of the parameter then resolves directly to
//! that fragment (compile-time substitution inlining). A pending fragment
//! that reaches a node with no binder to consume it is a contract violation
//! between the two phases and is reported as an internal error.

use vstd::prelude::*;
use vstd::string::StringExecFns;

use crate::context::{assoc_map_view, CompilationContext};
use crate::expression::{Apply, Binary, BinaryOp, Cond, Expr, Lambda, OnComplete, Primitive, Ret,
    Sequence, TxnField};

verus! {

broadcast use
    vstd::std_specs::vec::axiom_vec_index_decreases,
    vstd::std_specs::vec::axiom_vec_decreases_to_view,
    vstd::seq::axiom_seq_index_decreases,
;

/// Errors raised during code generation. For a tree that passed resolution
/// these indicate a violation of the contract between the two phases and
/// are internal, not user-facing.
#[derive(Debug, Clone, Copy, PartialEq, Eq, Structural)]
pub enum CompilationError {
    /// A parameter reference with no recorded substitution fragment.
    MissingSubstitution,
    /// A lambda compiled with no pending argument fragment to bind.
    UnappliedFunction,
    /// A pending argument fragment handed to a node that cannot consume it.
    UnusedArgument,
    /// The label counter cannot accommodate the labels the node needs.
    LabelOverflow,
    /// A conditional with no arms.
    EmptyCond,
    /// A sequence with no sub-expressions.
    EmptySequence,
}

/// The decimal digit character for `d` in `0..=9`.
pub open spec fn digit_char(d: int) -> char {
    if d == 0 {
        '0'
    } else if d == 1 {
        '1'
    } else if d == 2 {
        '2'
    } else if d == 3 {
        '3'
    } else if d == 4 {
        '4'
    } else if d == 5 {
        '5'
    } else if d == 6 {
        '6'
    } else if d == 7 {
        '7'
    } else if d == 8 {
        '8'
    } else {
        '9'
    }
}

/// The decimal rendering of a natural number, without leading zeroes.
pub open spec fn spec_dec(n: nat) -> Seq<char>
    decreases n,
{
    if n < 10 {
        seq![digit_char(n as int)]
    } else {
        spec_dec(n / 10) + seq![digit_char((n % 10) as int)]
    }
}

/// The lower-case hexadecimal digit character for `d` in `0..=15`.
pub open spec fn hex_digit_char(d: int) -> char {
    if d < 10 {
        digit_char(d)
    } else if d == 10 {
        'a'
    } else if d == 11 {
        'b'
    } else if d == 12 {
        'c'
    } else if d == 13 {
        'd'
    } else if d == 14 {
        'e'
    } else {
        'f'
    }
}

/// The hexadecimal rendering of the bytes from index `i` on, two digits per
/// byte.
pub open spec fn spec_hex_from(bs: Seq<u8>, i: int) -> Seq<char>
    decreases bs.len() - i,
{
    if i < 0 || i >= bs.len() {
        Seq::empty()
    } else {
        seq![
            hex_digit_char((bs[i] / 16) as int),
            hex_digit_char((bs[i] % 16) as int),
        ] + spec_hex_from(bs, i + 1)
    }
}

/// The hexadecimal rendering of a byte string, two digits per byte.
pub open spec fn spec_hex(bs: Seq<u8>) -> Seq<char> {
    spec_hex_from(bs, 0)
}

/// The name of the branch label minted from counter value `k`.
pub open spec fn spec_label(k: nat) -> Seq<char> {
    "l"@ + spec_dec(k)
}

/// The decimal digit as a one-character string.
fn digit_str(d: u64) -> (r: &'static str)
    requires
        d < 10,
    ensures
        r@ == seq![digit_char(d as int)],
{
    proof {
        reveal_strlit("0");
        reveal_strlit("1");
        reveal_strlit("2");
        reveal_strlit("3");
        reveal_strlit("4");
        reveal_strlit("5");
        reveal_strlit("6");
        reveal_strlit("7");
        reveal_strlit("8");
        reveal_strlit("9");
    }
    let r = if d == 0 {
        "0"
    } else if d == 1 {
        "1"
    } else if d == 2 {
        "2"
    } else if d == 3 {
        "3"
    } else if d == 4 {
        "4"
    } else if d == 5 {
        "5"
    } else if d == 6 {
        "6"
    } else if d == 7 {
        "7"
    } else if d == 8 {
        "8"
    } else {
        "9"
    };
    proof {
        assert(r@ =~= seq![digit_char(d as int)]);
    }
    r
}

/// The lower-case hexadecimal digit as a one-character string.
fn hex_digit_str(d: u8) -> (r: &'static str)
    requires
        d < 16,
    ensures
        r@ == seq![hex_digit_char(d as int)],
{
    if d < 10 {
        digit_str(d as u64)
    } else {
        proof {
            reveal_strlit("a");
            reveal_strlit("b");
            reveal_strlit("c");
            reveal_strlit("d");
            reveal_strlit("e");
            reveal_strlit("f");
        }
        let r = if d == 10 {
            "a"
        } else if d == 11 {
            "b"
        } else if d == 12 {
            "c"
        } else if d == 13 {
            "d"
        } else if d == 14 {
            "e"
        } else {
            "f"
        };
        proof {
            assert(r@ =~= seq![hex_digit_char(d as int)]);
        }
        r
    }
}

/// Renders a number in decimal.
pub fn dec_u64(n: u64) -> (s: String)
    ensures
        s@ == spec_dec(n as nat),
    decreases n,
{
    if n < 10 {
        String::from_str(digit_str(n))
    } else {
        let mut s = dec_u64(n / 10);
        s.append(digit_str(n % 10));
        s
    }
}

/// Renders the bytes from index `i` on in hexadecimal.
fn hex_from(bs: &Vec<u8>, i: usize) -> (s: String)
    requires
        i <= bs@.len(),
    ensures
        s@ == spec_hex_from(bs@, i as int),
    decreases bs@.len() - i,
{
    if i == bs.len() {
        let s = String::new();
        proof {
            assert(s@ =~= spec_hex_from(bs@, i as int));
        }
        s
    } else {
        let b = bs[i];
        let mut s = String::from_str(hex_digit_str(b / 16));
        s.append(hex_digit_str(b % 16));
        let rest = hex_from(bs, i + 1);
        s.append(rest.as_str());
        proof {
            assert(seq![hex_digit_char((b / 16) as int)] + seq![
                hex_digit_char((b % 16) as int),
            ] =~= seq![hex_digit_char((b / 16) as int), hex_digit_char((b % 16) as int)]);
        }
        s
    }
}

/// Renders the name of the branch label minted from counter value `k`.
fn label_text(k: u64) -> (s: String)
    ensures
        s@ == spec_label(k as nat),
{
    let mut s = String::from_str("l");
    s.append(dec_u64(k).as_str());
    s
}

/// The instruction token of a two-operand operator.
pub open spec fn op_text(op: BinaryOp) -> Seq<char> {
    match op {
        BinaryOp::Plus => "+"@,
        BinaryOp::Minus => "-"@,
        BinaryOp::Mult => "*"@,
        BinaryOp::Div => "/"@,
        BinaryOp::Equals => "=="@,
        BinaryOp::Less => "<"@,
        BinaryOp::And => "&&"@,
        BinaryOp::Or => "||"@,
    }
}

/// The instruction token of a two-operand operator.
fn op_str(op: BinaryOp) -> (r: &'static str)
    ensures
        r@ == op_text(op),
{
    match op {
        BinaryOp::Plus => "+",
        BinaryOp::Minus => "-",
        BinaryOp::Mult => "*",
        BinaryOp::Div => "/",
        BinaryOp::Equals => "==",
        BinaryOp::Less => "<",
        BinaryOp::And => "&&",
        BinaryOp::Or => "||",
    }
}

/// The instruction reading a transaction field.
pub open spec fn txn_text(f: TxnField) -> Seq<char> {
    match f {
        TxnField::Sender => "txn Sender"@,
        TxnField::Receiver => "txn Receiver"@,
        TxnField::Amount => "txn Amount"@,
        TxnField::Fee => "txn Fee"@,
        TxnField::ApplicationId => "txn ApplicationID"@,
        TxnField::OnCompletion => "txn OnCompletion"@,
    }
}

/// The instruction reading a transaction field.
fn txn_str(f: TxnField) -> (r: &'static str)
    ensures
        r@ == txn_text(f),
{
    match f {
        TxnField::Sender => "txn Sender",
        TxnField::Receiver => "txn Receiver",
        TxnField::Amount => "txn Amount",
        TxnField::Fee => "txn Fee",
        TxnField::ApplicationId => "txn ApplicationID",
        TxnField::OnCompletion => "txn OnCompletion",
    }
}

/// The fixed literal push of a completion-action constant. Each enumerant
/// pushes its own named constant of the target runtime; no two share one.
pub open spec fn on_complete_text(oc: OnComplete) -> Seq<char> {
    match oc {
        OnComplete::NoOp => "int NoOp"@,
        OnComplete::OptIn => "int OptIn"@,
        OnComplete::CloseOut => "int CloseOut"@,
        OnComplete::ClearState => "int ClearState"@,
        OnComplete::UpdateApplication => "int UpdateApplication"@,
        OnComplete::DeleteApplication => "int DeleteApplication"@,
    }
}

/// The fixed literal push of a completion-action constant.
fn on_complete_str(oc: OnComplete) -> (r: &'static str)
    ensures
        r@ == on_complete_text(oc),
{
    match oc {
        OnComplete::NoOp => "int NoOp",
        OnComplete::OptIn => "int OptIn",
        OnComplete::CloseOut => "int CloseOut",
        OnComplete::ClearState => "int ClearState",
        OnComplete::UpdateApplication => "int UpdateApplication",
        OnComplete::DeleteApplication => "int DeleteApplication",
    }
}

/// The fixed two-token fragment of a terminal: push the decision literal,
/// then return.
pub open spec fn ret_text(r: Ret) -> Seq<char> {
    match r {
        Ret::Approve => "int 1\nreturn"@,
        Ret::Reject => "int 0\nreturn"@,
    }
}

/// The fixed two-token fragment of a terminal.
fn ret_str(r: Ret) -> (s: &'static str)
    ensures
        s@ == ret_text(r),
{
    match r {
        Ret::Approve => "int 1\nreturn",
        Ret::Reject => "int 0\nreturn",
    }
}

/// The view of an optional pending fragment.
pub open spec fn opt_view(p: Option<String>) -> Option<Seq<char>> {
    match p {
        Some(s) => Some(s@),
        None => None,
    }
}

/// The assembly fragment of an expression, under fragment bindings `binds`,
/// an optional pending argument fragment, and the label counter `labels`;
/// together with the counter left for the rest of the program. Fragments
/// are deterministic functions of these inputs alone.
pub open spec fn spec_compile(
    e: Expr,
    binds: Map<Seq<char>, Seq<char>>,
    pending: Option<Seq<char>>,
    labels: int,
) -> Result<(Seq<char>, int), CompilationError>
    decreases e, 0int,
{
    match e {
        Expr::Primitive(p) => if pending is Some {
            Err(CompilationError::UnusedArgument)
        } else {
            match p {
                Primitive::UInt64(v) => Ok(("int "@ + spec_dec(v as nat), labels)),
                Primitive::Byteslice(bs) => Ok(("byte 0x"@ + spec_hex(bs@), labels)),
            }
        },
        Expr::Var(n) => if pending is Some {
            Err(CompilationError::UnusedArgument)
        } else if binds.contains_key(n@) {
            Ok((binds[n@], labels))
        } else {
            Err(CompilationError::MissingSubstitution)
        },
        Expr::Lambda(l) => match pending {
            Some(frag) => spec_compile(*l.body, binds.insert(l.param@, frag), None, labels),
            None => Err(CompilationError::UnappliedFunction),
        },
        Expr::Apply(a) => if pending is Some {
            Err(CompilationError::UnusedArgument)
        } else {
            match spec_compile(*a.1, binds, None, labels) {
                Ok(arg) => spec_compile(*a.0, binds, Some(arg.0), arg.1),
                Err(e) => Err(e),
            }
        },
        Expr::Binary(b) => if pending is Some {
            Err(CompilationError::UnusedArgument)
        } else {
            match spec_compile(*b.left, binds, None, labels) {
                Ok(lf) => match spec_compile(*b.right, binds, None, lf.1) {
                    Ok(rf) => Ok((lf.0 + "\n"@ + rf.0 + "\n"@ + op_text(b.op), rf.1)),
                    Err(e) => Err(e),
                },
                Err(e) => Err(e),
            }
        },
        Expr::Cond(c) => if pending is Some {
            Err(CompilationError::UnusedArgument)
        } else if c.arms@.len() == 0 {
            Err(CompilationError::EmptyCond)
        } else if labels + c.arms@.len() + 1 > u64::MAX {
            Err(CompilationError::LabelOverflow)
        } else {
            match spec_compile_arms(c.arms@, 0, binds, labels, labels + c.arms@.len() + 1) {
                Ok(parts) => Ok(
                    (
                        parts.0 + "err\n"@ + parts.1 + spec_label((labels + c.arms@.len()) as nat)
                            + ":"@,
                        parts.2,
                    ),
                ),
                Err(e) => Err(e),
            }
        },
        Expr::Sequence(s) => if pending is Some {
            Err(CompilationError::UnusedArgument)
        } else {
            spec_compile_seq(s.exprs@, 0, binds, labels)
        },
        Expr::Txn(f) => if pending is Some {
            Err(CompilationError::UnusedArgument)
        } else {
            Ok((txn_text(f), labels))
        },
        Expr::OnComplete(oc) => if pending is Some {
            Err(CompilationError::UnusedArgument)
        } else {
            Ok((on_complete_text(oc), labels))
        },
        Expr::Ret(r) => if pending is Some {
            Err(CompilationError::UnusedArgument)
        } else {
            Ok((ret_text(r), labels))
        },
    }
}

/// The guard section and the body section emitted for the arms of a
/// conditional from index `i` on. `base` is the counter value from which
/// the conditional's own labels were allocated: arm `i` branches to label
/// `base + i`, every body then branches to the shared end label
/// `base + arms.len()`. Guards and bodies allocate their further labels
/// from `labels`.
pub open spec fn spec_compile_arms(
    arms: Seq<(Expr, Expr)>,
    i: int,
    binds: Map<Seq<char>, Seq<char>>,
    base: int,
    labels: int,
) -> Result<(Seq<char>, Seq<char>, int), CompilationError>
    decreases arms, arms.len() - i,
{
    if i < 0 || i >= arms.len() {
        Ok((Seq::empty(), Seq::empty(), labels))
    } else {
        match spec_compile(arms[i].0, binds, None, labels) {
            Ok(gf) => match spec_compile(arms[i].1, binds, None, gf.1) {
                Ok(bf) => match spec_compile_arms(arms, i + 1, binds, base, bf.1) {
                    Ok(rest) => Ok(
                        (
                            gf.0 + "\nbnz "@ + spec_label((base + i) as nat) + "\n"@ + rest.0,
                            spec_label((base + i) as nat) + ":\n"@ + bf.0 + "\nb "@ + spec_label(
                                (base + arms.len()) as nat,
                            ) + "\n"@ + rest.1,
                            rest.2,
                        ),
                    ),
                    Err(e) => Err(e),
                },
                Err(e) => Err(e),
            },
            Err(e) => Err(e),
        }
    }
}

/// The fragment of a sequence from index `i` on: the fragments of its
/// sub-expressions, joined by the instruction separator. An empty sequence
/// has no fragment.
pub open spec fn spec_compile_seq(
    exprs: Seq<Expr>,
    i: int,
    binds: Map<Seq<char>, Seq<char>>,
    labels: int,
) -> Result<(Seq<char>, int), CompilationError>
    decreases exprs, exprs.len() - i,
{
    if i < 0 || i >= exprs.len() {
        Err(CompilationError::EmptySequence)
    } else if i == exprs.len() - 1 {
        spec_compile(exprs[i], binds, None, labels)
    } else {
        match spec_compile(exprs[i], binds, None, labels) {
            Ok(f) => match spec_compile_seq(exprs, i + 1, binds, f.1) {
                Ok(rest) => Ok((f.0 + "\n"@ + rest.0, rest.1)),
                Err(e) => Err(e),
            },
            Err(e) => Err(e),
        }
    }
}

impl Expr {
    /// Emits the assembly fragment of the expression, threading the label
    /// counter through the context and leaving the bindings as they were.
    pub fn compile(&self, ctx: &mut CompilationContext, pending: Option<String>) -> (r: Result<
        String,
        CompilationError,
    >)
        ensures
            final(ctx).bindings@ == old(ctx).bindings@,
            match spec_compile(
                *self,
                old(ctx).view_map(),
                opt_view(pending),
                old(ctx).labels as int,
            ) {
                Ok(p) => r is Ok && r->Ok_0@ == p.0 && final(ctx).labels == p.1,
                Err(e) => r == Err::<String, CompilationError>(e),
            },
        decreases self, 1int,
    {
        match self {
            Expr::Primitive(p) => match pending {
                Some(_) => Err(CompilationError::UnusedArgument),
                None => match p {
                    Primitive::UInt64(v) => {
                        let mut s = String::from_str("int ");
                        s.append(dec_u64(*v).as_str());
                        Ok(s)
                    }
                    Primitive::Byteslice(bs) => {
                        let mut s = String::from_str("byte 0x");
                        s.append(hex_from(bs, 0).as_str());
                        Ok(s)
                    }
                },
            },
            Expr::Var(n) => match pending {
                Some(_) => Err(CompilationError::UnusedArgument),
                None => match crate::context::fragment_get(&ctx.bindings, n.as_str()) {
                    Some(f) => Ok(f.clone()),
                    None => Err(CompilationError::MissingSubstitution),
                },
            },
            Expr::Lambda(l) => l.compile(ctx, pending),
            Expr::Apply(a) => a.compile(ctx, pending),
            Expr::Binary(b) => b.compile(ctx, pending),
            Expr::Cond(c) => c.compile(ctx, pending),
            Expr::Sequence(s) => s.compile(ctx, pending),
            Expr::Txn(f) => match pending {
                Some(_) => Err(CompilationError::UnusedArgument),
                None => Ok(String::from_str(txn_str(*f))),
            },
            Expr::OnComplete(oc) => oc.compile(ctx, pending),
            Expr::Ret(rr) => rr.compile(ctx, pending),
        }
    }

    /// Emits the fragment of the expression under a fresh compilation
    /// context: no bindings, and the label counter at zero.
    pub fn compile_raw(&self) -> (r: Result<String, CompilationError>)
        ensures
            match spec_compile(*self, Map::empty(), None, 0) {
                Ok(p) => r is Ok && r->Ok_0@ == p.0,
                Err(e) => r == Err::<String, CompilationError>(e),
            },
    {
        let mut ctx = CompilationContext::default();
        proof {
            assert(assoc_map_view(ctx.bindings@) =~= Map::<Seq<char>, Seq<char>>::empty());
        }
        self.compile(&mut ctx, None)
    }
}

impl Lambda {
    /// A lambda consumes the pending argument fragment: the fragment is
    /// bound to the parameter name, visible only within the body's compiled
    /// subtree, and the body is compiled in its place. A lambda with no
    /// pending fragment has nothing to bind and is rejected.
    pub fn compile(&self, ctx: &mut CompilationContext, pending: Option<String>) -> (r: Result<
        String,
        CompilationError,
    >)
        ensures
            final(ctx).bindings@ == old(ctx).bindings@,
            match spec_compile(
                Expr::Lambda(*self),
                old(ctx).view_map(),
                opt_view(pending),
                old(ctx).labels as int,
            ) {
                Ok(p) => r is Ok && r->Ok_0@ == p.0 && final(ctx).labels == p.1,
                Err(e) => r == Err::<String, CompilationError>(e),
            },
        decreases self, 0int,
    {
        match pending {
            Some(frag) => {
                ctx.bindings.push((self.param.clone(), frag));
                proof {
                    assert(ctx.bindings@.drop_last() =~= old(ctx).bindings@);
                }
                let r = self.body.compile(ctx, None);
                let _ = ctx.bindings.pop();
                proof {
                    assert(ctx.bindings@ =~= old(ctx).bindings@);
                }
                r
            }
            None => Err(CompilationError::UnappliedFunction),
        }
    }
}

impl Apply {
    /// Compiles the argument first, with no pending substitution of its
    /// own, then compiles the callee with the finished argument fragment as
    /// the pending fragment for its binder.
    pub fn compile(&self, ctx: &mut CompilationContext, pending: Option<String>) -> (r: Result<
        String,
        CompilationError,
    >)
        ensures
            final(ctx).bindings@ == old(ctx).bindings@,
            match spec_compile(
                Expr::Apply(*self),
                old(ctx).view_map(),
                opt_view(pending),
                old(ctx).labels as int,
            ) {
                Ok(p) => r is Ok && r->Ok_0@ == p.0 && final(ctx).labels == p.1,
                Err(e) => r == Err::<String, CompilationError>(e),
            },
        decreases self, 0int,
    {
        match pending {
            Some(_) => {
                return Err(CompilationError::UnusedArgument);
            }
            None => {}
        }
        let arg = match self.1.compile(ctx, None) {
            Ok(f) => f,
            Err(e) => {
                return Err(e);
            }
        };
        self.0.compile(ctx, Some(arg))
    }
}

impl Binary {
    /// Emits the left operand, the right operand, then the operator token.
    /// A binary node binds no parameter, so it cannot consume a pending
    /// argument fragment.
    pub fn compile(&self, ctx: &mut CompilationContext, pending: Option<String>) -> (r: Result<
        String,
        CompilationError,
    >)
        ensures
            final(ctx).bindings@ == old(ctx).bindings@,
            match spec_compile(
                Expr::Binary(*self),
                old(ctx).view_map(),
                opt_view(pending),
                old(ctx).labels as int,
            ) {
                Ok(p) => r is Ok && r->Ok_0@ == p.0 && final(ctx).labels == p.1,
                Err(e) => r == Err::<String, CompilationError>(e),
            },
        decreases self, 0int,
    {
        match pending {
            Some(_) => {
                return Err(CompilationError::UnusedArgument);
            }
            None => {}
        }
        let lf = match self.left.compile(ctx, None) {
            Ok(f) => f,
            Err(e) => {
                return Err(e);
            }
        };
        let rf = match self.right.compile(ctx, None) {
            Ok(f) => f,
            Err(e) => {
                return Err(e);
            }
        };
        let mut s = lf;
        s.append("\n");
        s.append(rf.as_str());
        s.append("\n");
        s.append(op_str(self.op));
        Ok(s)
    }
}

/// Compiles the arms of a conditional from index `i` on, emitting the guard
/// section and the body section. `base` is the counter value from which the
/// conditional's labels were allocated.
fn compile_arms(
    arms: &Vec<(Expr, Expr)>,
    i: usize,
    ctx: &mut CompilationContext,
    base: u64,
) -> (r: Result<(String, String), CompilationError>)
    requires
        i <= arms@.len(),
        base + arms@.len() <= u64::MAX,
    ensures
        final(ctx).bindings@ == old(ctx).bindings@,
        match spec_compile_arms(
            arms@,
            i as int,
            old(ctx).view_map(),
            base as int,
            old(ctx).labels as int,
        ) {
            Ok(p) => r is Ok && r->Ok_0.0@ == p.0 && r->Ok_0.1@ == p.1 && final(ctx).labels
                == p.2,
            Err(e) => r == Err::<(String, String), CompilationError>(e),
        },
    decreases *arms, arms@.len() - i,
{
    if i == arms.len() {
        let g = String::new();
        let b = String::new();
        proof {
            assert(g@ =~= Seq::<char>::empty());
            assert(b@ =~= Seq::<char>::empty());
        }
        Ok((g, b))
    } else {
        let gf = match arms[i].0.compile(ctx, None) {
            Ok(f) => f,
            Err(e) => {
                return Err(e);
            }
        };
        let bf = match arms[i].1.compile(ctx, None) {
            Ok(f) => f,
            Err(e) => {
                return Err(e);
            }
        };
        let rest = match compile_arms(arms, i + 1, ctx, base) {
            Ok(t) => t,
            Err(e) => {
                return Err(e);
            }
        };
        let arm_label = label_text(base + i as u64);
        let end_label = label_text(base + arms.len() as u64);
        let mut g = gf;
        g.append("\nbnz ");
        g.append(arm_label.as_str());
        g.append("\n");
        g.append(rest.0.as_str());
        let mut b = arm_label;
        b.append(":\n");
        b.append(bf.as_str());
        b.append("\nb ");
        b.append(end_label.as_str());
        b.append("\n");
        b.append(rest.1.as_str());
        Ok((g, b))
    }
}

impl Cond {
    /// Emits each guard followed by a conditional branch to a freshly
    /// allocated label for that arm's body; a program that falls through
    /// every guard fails with the machine's error instruction; each body
    /// then branches unconditionally past the remaining arms to the shared
    /// end label. A conditional with `N` arms allocates `N + 1` labels from
    /// the program-scoped counter, so labels are unique across the whole
    /// program.
    pub fn compile(&self, ctx: &mut CompilationContext, pending: Option<String>) -> (r: Result<
        String,
        CompilationError,
    >)
        ensures
            final(ctx).bindings@ == old(ctx).bindings@,
            match spec_compile(
                Expr::Cond(*self),
                old(ctx).view_map(),
                opt_view(pending),
                old(ctx).labels as int,
            ) {
                Ok(p) => r is Ok && r->Ok_0@ == p.0 && final(ctx).labels == p.1,
                Err(e) => r == Err::<String, CompilationError>(e),
            },
        decreases self, 0int,
    {
        match pending {
            Some(_) => {
                return Err(CompilationError::UnusedArgument);
            }
            None => {}
        }
        let n = self.arms.len();
        if n == 0 {
            return Err(CompilationError::EmptyCond);
        }
        let n64 = n as u64;
        let base = ctx.labels;
        if n64 >= u64::MAX || base > u64::MAX - n64 - 1 {
            return Err(CompilationError::LabelOverflow);
        }
        ctx.labels = base + n64 + 1;
        let parts = match compile_arms(&self.arms, 0, ctx, base) {
            Ok(t) => t,
            Err(e) => {
                return Err(e);
            }
        };
        let end_label = label_text(base + n64);
        let mut s = parts.0;
        s.append("err\n");
        s.append(parts.1.as_str());
        s.append(end_label.as_str());
        s.append(":");
        Ok(s)
    }
}

/// Compiles a sequence from index `i` on, joining the fragments with the
/// instruction separator.
fn compile_seq(exprs: &Vec<Expr>, i: usize, ctx: &mut CompilationContext) -> (r: Result<
    String,
    CompilationError,
>)
    requires
        i <= exprs@.len(),
    ensures
        final(ctx).bindings@ == old(ctx).bindings@,
        match spec_compile_seq(
            exprs@,
            i as int,
            old(ctx).view_map(),
            old(ctx).labels as int,
        ) {
            Ok(p) => r is Ok && r->Ok_0@ == p.0 && final(ctx).labels == p.1,
            Err(e) => r == Err::<String, CompilationError>(e),
        },
    decreases *exprs, exprs@.len() - i,
{
    if i >= exprs.len() {
        Err(CompilationError::EmptySequence)
    } else if i == exprs.len() - 1 {
        exprs[i].compile(ctx, None)
    } else {
        let f = match exprs[i].compile(ctx, None) {
            Ok(f) => f,
            Err(e) => {
                return Err(e);
            }
        };
        let rest = match compile_seq(exprs, i + 1, ctx) {
            Ok(f) => f,
            Err(e) => {
                return Err(e);
            }
        };
        let mut s = f;
        s.append("\n");
        s.append(rest.as_str());
        Ok(s)
    }
}

impl Sequence {
    /// Emits the fragments of the sub-expressions in order, joined by the
    /// instruction separator. An empty sequence is rejected.
    pub fn compile(&self, ctx: &mut CompilationContext, pending: Option<String>) -> (r: Result<
        String,
        CompilationError,
    >)
        ensures
            final(ctx).bindings@ == old(ctx).bindings@,
            match spec_compile(
                Expr::Sequence(*self),
                old(ctx).view_map(),
                opt_view(pending),
                old(ctx).labels as int,
            ) {
                Ok(p) => r is Ok && r->Ok_0@ == p.0 && final(ctx).labels == p.1,
                Err(e) => r == Err::<String, CompilationError>(e),
            },
        decreases self, 0int,
    {
        match pending {
            Some(_) => {
                return Err(CompilationError::UnusedArgument);
            }
            None => {}
        }
        compile_seq(&self.exprs, 0, ctx)
    }
}

impl OnComplete {
    /// Emits the single fixed literal push of the constant. A constant
    /// cannot consume a pending argument fragment.
    pub fn compile(&self, _context: &CompilationContext, pending: Option<String>) -> (r: Result<
        String,
        CompilationError,
    >)
        ensures
            match pending {
                None => r is Ok && r->Ok_0@ == on_complete_text(*self),
                Some(_) => r == Err::<String, CompilationError>(
                    CompilationError::UnusedArgument,
                ),
            },
    {
        match pending {
            Some(_) => Err(CompilationError::UnusedArgument),
            None => Ok(String::from_str(on_complete_str(*self))),
        }
    }

    /// Emits the constant's fragment under a fresh compilation context.
    pub fn compile_raw(&self) -> (r: Result<String, CompilationError>)
        ensures
            r is Ok,
            r->Ok_0@ == on_complete_text(*self),
    {
        let ctx = CompilationContext::default();
        self.compile(&ctx, None)
    }
}

impl Ret {
    /// Emits exactly the literal decision push, `1` to approve or `0` to
    /// reject, followed by the return instruction. A terminal cannot
    /// consume a pending argument fragment.
    pub fn compile(&self, _context: &CompilationContext, pending: Option<String>) -> (r: Result<
        String,
        CompilationError,
    >)
        ensures
            match pending {
                None => r is Ok && r->Ok_0@ == ret_text(*self),
                Some(_) => r == Err::<String, CompilationError>(
                    CompilationError::UnusedArgument,
                ),
            },
    {
        match pending {
            Some(_) => Err(CompilationError::UnusedArgument),
            None => Ok(String::from_str(ret_str(*self))),
        }
    }

    /// Emits the terminal's fragment under a fresh compilation context.
    pub fn compile_raw(&self) -> (r: Result<String, CompilationError>)
        ensures
            r is Ok,
            r->Ok_0@ == ret_text(*self),
    {
        let ctx = CompilationContext::default();
        self.compile(&ctx, None)
    }
}

/// A conditional with zero arms is never accepted by code generation
/// either: it fails with the code generator's own empty-conditional error
/// under every binding environment and counter state.
pub proof fn lemma_empty_cond_never_compiles(
    c: Cond,
    binds: Map<Seq<char>, Seq<char>>,
    labels: int,
)
    requires
        c.arms@.len() == 0,
    ensures
        spec_compile(Expr::Cond(c), binds, None, labels) == Err::<
            (Seq<char>, int),
            CompilationError,
        >(CompilationError::EmptyCond),
{
}

proof fn lemma_dec_len(n: nat)
    ensures
        spec_dec(n).len() >= 1,
        n >= 10 ==> spec_dec(n).len() >= 2,
    decreases n,
{
    if n >= 10 {
        lemma_dec_len(n / 10);
    }
}

/// Distinct numbers render to distinct decimal texts.
proof fn lemma_dec_injective(m: nat, n: nat)
    requires
        m != n,
    ensures
        spec_dec(m) != spec_dec(n),
    decreases m + n,
{
    if m < 10 && n < 10 {
        assert(spec_dec(m)[0] == digit_char(m as int));
        assert(spec_dec(n)[0] == digit_char(n as int));
        assert(digit_char(m as int) != digit_char(n as int));
    } else if m < 10 {
        lemma_dec_len(n);
        assert(spec_dec(m).len() == 1);
    } else if n < 10 {
        lemma_dec_len(m);
        assert(spec_dec(n).len() == 1);
    } else {
        vstd::arithmetic::div_mod::lemma_fundamental_div_mod(m as int, 10);
        vstd::arithmetic::div_mod::lemma_fundamental_div_mod(n as int, 10);
        if m % 10 != n % 10 {
            if spec_dec(m) == spec_dec(n) {
                assert(spec_dec(m)[spec_dec(m).len() - 1] == digit_char((m % 10) as int));
                assert(spec_dec(n)[spec_dec(n).len() - 1] == digit_char((n % 10) as int));
                assert(digit_char((m % 10) as int) != digit_char((n % 10) as int));
                assert(false);
            }
        } else {
            assert(m / 10 != n / 10);
            lemma_dec_injective(m / 10, n / 10);
            assert(spec_dec(m) == spec_dec(m / 10) + seq![digit_char((m % 10) as int)]);
            assert(spec_dec(n) == spec_dec(n / 10) + seq![digit_char((n % 10) as int)]);
            if spec_dec(m) == spec_dec(n) {
                assert(spec_dec(m / 10).len() == spec_dec(n / 10).len());
                assert forall|i: int|
                    0 <= i < spec_dec(m / 10).len() implies #[trigger] spec_dec(m / 10)[i]
                    == spec_dec(n / 10)[i] by {
                    assert(spec_dec(m)[i] == spec_dec(m / 10)[i]);
                    assert(spec_dec(n)[i] == spec_dec(n / 10)[i]);
                }
                assert(spec_dec(m / 10) =~= spec_dec(n / 10));
                assert(false);
            }
        }
    }
}

/// Labels minted from distinct counter values have distinct names, so the
/// labels allocated within one program compilation never collide.
pub proof fn lemma_label_names_distinct(k1: nat, k2: nat)
    requires
        k1 != k2,
    ensures
        spec_label(k1) != spec_label(k2),
{
    lemma_dec_injective(k1, k2);
    reveal_strlit("l");
    assert(spec_label(k1) == "l"@ + spec_dec(k1));
    assert(spec_label(k2) == "l"@ + spec_dec(k2));
    if spec_label(k1) == spec_label(k2) {
        assert(("l"@ + spec_dec(k1)).len() == 1 + spec_dec(k1).len());
        assert(("l"@ + spec_dec(k2)).len() == 1 + spec_dec(k2).len());
        assert(spec_dec(k1).len() == spec_dec(k2).len());
        assert forall|i: int|
            0 <= i < spec_dec(k1).len() implies #[trigger] spec_dec(k1)[i] == spec_dec(k2)[i] by {
            assert(spec_label(k1)[1 + i] == spec_dec(k1)[i]);
            assert(spec_label(k2)[1 + i] == spec_dec(k2)[i]);
        }
        assert(spec_dec(k1) =~= spec_dec(k2));
        assert(false);
    }
}

/// No two completion-action constants compile to the same literal push:
/// the encodings are distinct and stable.
pub proof fn lemma_on_complete_encodings_distinct(a: OnComplete, b: OnComplete)
    requires
        a != b,
    ensures
        on_complete_text(a) != on_complete_text(b),
{
    reveal_strlit("int NoOp");
    reveal_strlit("int OptIn");
    reveal_strlit("int CloseOut");
    reveal_strlit("int ClearState");
    reveal_strlit("int UpdateApplication");
    reveal_strlit("int DeleteApplication");
    assert("int NoOp"@.len() == 8);
    assert("int OptIn"@.len() == 9);
    assert("int CloseOut"@.len() == 12);
    assert("int ClearState"@.len() == 14);
    assert("int UpdateApplication"@.len() == 21);
    assert("int DeleteApplication"@.len() == 21);
    assert("int UpdateApplication"@[4] == 'U');
    assert("int DeleteApplication"@[4] == 'D');
}

/// How many labels compiling an expression allocates: a conditional takes
/// one label per arm plus the shared end label, and every node adds what
/// its children take.
pub open spec fn label_demand(e: Expr) -> int
    decreases e, 0int,
{
    match e {
        Expr::Primitive(_) => 0,
        Expr::Var(_) => 0,
        Expr::Lambda(l) => label_demand(*l.body),
        Expr::Apply(a) => label_demand(*a.1) + label_demand(*a.0),
        Expr::Binary(b) => label_demand(*b.left) + label_demand(*b.right),
        Expr::Cond(c) => c.arms@.len() + 1 + arms_label_demand(c.arms@, 0),
        Expr::Sequence(s) => seq_label_demand(s.exprs@, 0),
        Expr::Txn(_) => 0,
        Expr::OnComplete(_) => 0,
        Expr::Ret(_) => 0,
    }
}

/// The labels the guards and bodies of the arms from index `i` on allocate.
pub open spec fn arms_label_demand(arms: Seq<(Expr, Expr)>, i: int) -> int
    decreases arms, arms.len() - i,
{
    if i < 0 || i >= arms.len() {
        0
    } else {
        label_demand(arms[i].0) + label_demand(arms[i].1) + arms_label_demand(arms, i + 1)
    }
}

/// The labels the sub-expressions from index `i` on allocate.
pub open spec fn seq_label_demand(exprs: Seq<Expr>, i: int) -> int
    decreases exprs, exprs.len() - i,
{
    if i < 0 || i >= exprs.len() {
        0
    } else {
        label_demand(exprs[i]) + seq_label_demand(exprs, i + 1)
    }
}

/// Label allocation is monotonic and exact: whenever compilation succeeds,
/// the counter advances by exactly the expression's label demand — for a
/// conditional with `N` label-free arms, by exactly `N + 1`. Together with
/// [`lemma_label_names_distinct`] this makes every allocated label unique
/// within one program compilation, and compilation that starts from the
/// same counter reproduces the same labels.
pub proof fn lemma_label_allocation(
    e: Expr,
    binds: Map<Seq<char>, Seq<char>>,
    pending: Option<Seq<char>>,
    labels: int,
)
    ensures
        spec_compile(e, binds, pending, labels) matches Ok(p) ==> p.1 == labels + label_demand(e),
    decreases e, 1int,
{
    match e {
        Expr::Primitive(_) => {}
        Expr::Var(_) => {}
        Expr::Lambda(l) => {
            match pending {
                Some(frag) => {
                    lemma_label_allocation(*l.body, binds.insert(l.param@, frag), None, labels);
                }
                None => {}
            }
        }
        Expr::Apply(a) => {
            if pending is None {
                lemma_label_allocation(*a.1, binds, None, labels);
                match spec_compile(*a.1, binds, None, labels) {
                    Ok(arg) => {
                        lemma_label_allocation(*a.0, binds, Some(arg.0), arg.1);
                    }
                    Err(_) => {}
                }
            }
        }
        Expr::Binary(b) => {
            if pending is None {
                lemma_label_allocation(*b.left, binds, None, labels);
                match spec_compile(*b.left, binds, None, labels) {
                    Ok(lf) => {
                        lemma_label_allocation(*b.right, binds, None, lf.1);
                    }
                    Err(_) => {}
                }
            }
        }
        Expr::Cond(c) => {
            if pending is None && c.arms@.len() > 0 && labels + c.arms@.len() + 1 <= u64::MAX {
                lemma_arms_label_allocation(
                    c.arms@,
                    0,
                    binds,
                    labels,
                    labels + c.arms@.len() + 1,
                );
            }
        }
        Expr::Sequence(s) => {
            if pending is None {
                lemma_seq_label_allocation(s.exprs@, 0, binds, labels);
            }
        }
        Expr::Txn(_) => {}
        Expr::OnComplete(_) => {}
        Expr::Ret(_) => {}
    }
}

proof fn lemma_arms_label_allocation(
    arms: Seq<(Expr, Expr)>,
    i: int,
    binds: Map<Seq<char>, Seq<char>>,
    base: int,
    labels: int,
)
    ensures
        spec_compile_arms(arms, i, binds, base, labels) matches Ok(p) ==> p.2 == labels
            + arms_label_demand(arms, i),
    decreases arms, arms.len() - i,
{
    if 0 <= i < arms.len() {
        lemma_label_allocation(arms[i].0, binds, None, labels);
        match spec_compile(arms[i].0, binds, None, labels) {
            Ok(gf) => {
                lemma_label_allocation(arms[i].1, binds, None, gf.1);
                match spec_compile(arms[i].1, binds, None, gf.1) {
                    Ok(bf) => {
                        lemma_arms_label_allocation(arms, i + 1, binds, base, bf.1);
                    }
                    Err(_) => {}
                }
            }
            Err(_) => {}
        }
    }
}

proof fn lemma_seq_label_allocation(
    exprs: Seq<Expr>,
    i: int,
    binds: Map<Seq<char>, Seq<char>>,
    labels: int,
)
    ensures
        spec_compile_seq(exprs, i, binds, labels) matches Ok(p) ==> p.1 == labels
            + seq_label_demand(exprs, i),
    decreases exprs, exprs.len() - i,
{
    if 0 <= i < exprs.len() {
        lemma_label_allocation(exprs[i], binds, None, labels);
        if i == exprs.len() - 1 {
            assert(seq_label_demand(exprs, i) == label_demand(exprs[i]) + seq_label_demand(
                exprs,
                i + 1,
            ));
        } else {
            match spec_compile(exprs[i], binds, None, labels) {
                Ok(f) => {
                    lemma_seq_label_allocation(exprs, i + 1, binds, f.1);
                }
                Err(_) => {}
            }
        }
    }
}

} // verus!
