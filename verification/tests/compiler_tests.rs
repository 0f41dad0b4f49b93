use rusteal::compile::CompilationError;
use rusteal::context::{CompilationContext, TypeContext};
use rusteal::expression::{Apply, Binary, BinaryOp, Cond, Expr, Lambda, OnComplete, Primitive,
    Ret, Sequence, TxnField};
use rusteal::program::{Program, ProgramError};
use rusteal::typing::{TypeEnum, TypeError, TypePrimitive};

#[test]
fn constant_test() {
    let e = OnComplete::NoOp;
    assert_eq!(e.compile_raw().unwrap(), "int NoOp");
}

#[test]
fn ret_test() {
    let e = Ret::Approve;
    println!("{:?}", e.resolve(&TypeContext::default()));
    println!("{}", e.compile_raw().unwrap());
}

#[test]
fn unify_equal_types_is_identity() {
    let mut a = TypeEnum::Arrow(
        Box::new(TypeEnum::Simple(TypePrimitive::UInt64)),
        Box::new(TypeEnum::Simple(TypePrimitive::Halt)),
    );
    let mut b = TypeEnum::Arrow(
        Box::new(TypeEnum::Simple(TypePrimitive::UInt64)),
        Box::new(TypeEnum::Simple(TypePrimitive::Halt)),
    );
    assert_eq!(a.unify(&mut b), Ok(()));
    let expected = TypeEnum::Arrow(
        Box::new(TypeEnum::Simple(TypePrimitive::UInt64)),
        Box::new(TypeEnum::Simple(TypePrimitive::Halt)),
    );
    assert_eq!(a, expected);
    assert_eq!(b, expected);
}

#[test]
fn unify_incompatible_types_fails_without_mutation() {
    let mut a = TypeEnum::Simple(TypePrimitive::UInt64);
    let mut b = TypeEnum::Simple(TypePrimitive::Byteslice);
    assert_eq!(
        a.unify(&mut b),
        Err(TypeError::Mismatch(
            TypeEnum::Simple(TypePrimitive::UInt64),
            TypeEnum::Simple(TypePrimitive::Byteslice),
        ))
    );
    assert_eq!(a, TypeEnum::Simple(TypePrimitive::UInt64));
    assert_eq!(b, TypeEnum::Simple(TypePrimitive::Byteslice));

    let mut c = TypeEnum::Simple(TypePrimitive::UInt64);
    let mut d = TypeEnum::Arrow(
        Box::new(TypeEnum::Simple(TypePrimitive::UInt64)),
        Box::new(TypeEnum::Simple(TypePrimitive::UInt64)),
    );
    assert!(c.unify(&mut d).is_err());
    assert_eq!(c, TypeEnum::Simple(TypePrimitive::UInt64));

    // A failed attempt can be retried and behaves the same way again.
    let mut a2 = TypeEnum::Simple(TypePrimitive::UInt64);
    assert!(a2.unify(&mut b).is_err());
    assert_eq!(b, TypeEnum::Simple(TypePrimitive::Byteslice));
}

#[test]
fn apply_over_non_arrow_callee_fails() {
    let mut ctx = TypeContext::default();
    let uint_callee = Apply(
        Box::new(Expr::Primitive(Primitive::UInt64(5))),
        Box::new(Expr::Primitive(Primitive::UInt64(6))),
    );
    assert_eq!(
        uint_callee.resolve(&mut ctx),
        Err(TypeError::NonFunctionApplication(TypeEnum::Simple(TypePrimitive::UInt64)))
    );

    let bytes_callee = Apply(
        Box::new(Expr::Primitive(Primitive::Byteslice(vec![1]))),
        Box::new(Expr::Primitive(Primitive::UInt64(6))),
    );
    assert_eq!(
        bytes_callee.resolve(&mut ctx),
        Err(TypeError::NonFunctionApplication(TypeEnum::Simple(TypePrimitive::Byteslice)))
    );

    let halt_callee = Apply(
        Box::new(Expr::Ret(Ret::Approve)),
        Box::new(Expr::Primitive(Primitive::UInt64(6))),
    );
    assert_eq!(
        halt_callee.resolve(&mut ctx),
        Err(TypeError::NonFunctionApplication(TypeEnum::Simple(TypePrimitive::Halt)))
    );
}

#[test]
fn empty_cond_is_rejected() {
    let mut ctx = TypeContext::default();
    let empty = Cond { arms: vec![] };
    assert_eq!(empty.resolve(&mut ctx), Err(TypeError::EmptyCond));

    let empty_again = Expr::Cond(Cond { arms: vec![] });
    assert_eq!(empty_again.compile_raw(), Err(CompilationError::EmptyCond));
}

#[test]
fn ret_compiles_to_exact_fragments() {
    assert_eq!(Ret::Approve.compile_raw().unwrap(), "int 1\nreturn");
    assert_eq!(Ret::Reject.compile_raw().unwrap(), "int 0\nreturn");
}

#[test]
fn on_complete_encodings_are_distinct_and_stable() {
    let all = [
        OnComplete::NoOp,
        OnComplete::OptIn,
        OnComplete::CloseOut,
        OnComplete::ClearState,
        OnComplete::UpdateApplication,
        OnComplete::DeleteApplication,
    ];
    let expected = [
        "int NoOp",
        "int OptIn",
        "int CloseOut",
        "int ClearState",
        "int UpdateApplication",
        "int DeleteApplication",
    ];
    for (oc, text) in all.iter().zip(expected.iter()) {
        assert_eq!(oc.compile_raw().unwrap(), *text);
    }
    for i in 0..all.len() {
        for j in 0..all.len() {
            if i != j {
                assert_ne!(all[i].compile_raw().unwrap(), all[j].compile_raw().unwrap());
            }
        }
    }
}

#[test]
fn byteslice_literal_round_trip() {
    let mut ctx = TypeContext::default();

    let (_, quoted) = rusteal::primitives::byteslice("\"hi\"").unwrap();
    let (_, bracketed) = rusteal::primitives::byteslice("[104,105]").unwrap();
    assert_eq!(quoted, Expr::Primitive(Primitive::Byteslice(vec![104, 105])));
    assert_eq!(quoted, bracketed);

    assert_eq!(
        quoted.resolve(&mut ctx),
        Ok(TypeEnum::Simple(TypePrimitive::Byteslice))
    );
    assert_eq!(quoted.compile_raw().unwrap(), "byte 0x6869");
    assert_eq!(bracketed.compile_raw().unwrap(), "byte 0x6869");

    let (_, empty) = rusteal::primitives::byteslice("[]").unwrap();
    assert_eq!(empty.compile_raw().unwrap(), "byte 0x");
}

#[test]
fn minimal_program_end_to_end() {
    let approve = Program { root: Expr::Ret(Ret::Approve) };
    assert_eq!(approve.compile().unwrap(), "#pragma version 5\nint 1\nreturn");

    let bare_int = Program { root: Expr::Primitive(Primitive::UInt64(5)) };
    assert_eq!(
        bare_int.compile(),
        Err(ProgramError::Type(TypeError::Mismatch(
            TypeEnum::Simple(TypePrimitive::Halt),
            TypeEnum::Simple(TypePrimitive::UInt64),
        )))
    );
}

#[test]
fn cond_labels_are_distinct_and_deterministic() {
    let program = Program {
        root: Expr::Cond(Cond {
            arms: vec![
                (Expr::Primitive(Primitive::UInt64(1)), Expr::Ret(Ret::Approve)),
                (Expr::Primitive(Primitive::UInt64(0)), Expr::Ret(Ret::Reject)),
            ],
        }),
    };
    let expected = "#pragma version 5\n\
        int 1\nbnz l0\n\
        int 0\nbnz l1\n\
        err\n\
        l0:\nint 1\nreturn\nb l2\n\
        l1:\nint 0\nreturn\nb l2\n\
        l2:";
    assert_eq!(program.compile().unwrap(), expected);
    // Re-invoking compilation restarts label numbering deterministically.
    assert_eq!(program.compile().unwrap(), expected);
}

#[test]
fn nested_cond_labels_continue_from_the_counter() {
    let inner = Expr::Cond(Cond {
        arms: vec![(Expr::Primitive(Primitive::UInt64(1)), Expr::Ret(Ret::Approve))],
    });
    let outer = Program {
        root: Expr::Cond(Cond {
            arms: vec![(Expr::Primitive(Primitive::UInt64(1)), inner)],
        }),
    };
    let expected = "#pragma version 5\n\
        int 1\nbnz l0\n\
        err\n\
        l0:\nint 1\nbnz l2\nerr\nl2:\nint 1\nreturn\nb l3\nl3:\nb l1\n\
        l1:";
    assert_eq!(outer.compile().unwrap(), expected);
}

#[test]
fn lambda_application_substitutes_the_argument() {
    let double = Expr::Lambda(Lambda {
        param: "x".to_string(),
        param_type: Box::new(TypeEnum::Simple(TypePrimitive::UInt64)),
        body: Box::new(Expr::Binary(Binary {
            op: BinaryOp::Plus,
            left: Box::new(Expr::Var("x".to_string())),
            right: Box::new(Expr::Var("x".to_string())),
        })),
    });
    let applied = Expr::Apply(Apply(
        Box::new(double),
        Box::new(Expr::Primitive(Primitive::UInt64(21))),
    ));

    let mut ctx = TypeContext::default();
    assert_eq!(applied.resolve(&mut ctx), Ok(TypeEnum::Simple(TypePrimitive::UInt64)));
    assert_eq!(applied.compile_raw().unwrap(), "int 21\nint 21\n+");
}

#[test]
fn unbound_names_are_reported() {
    let mut ctx = TypeContext::default();
    let var = Expr::Var("nowhere".to_string());
    assert_eq!(var.resolve(&mut ctx), Err(TypeError::UnboundVariable));
    assert_eq!(var.compile_raw(), Err(CompilationError::MissingSubstitution));
}

#[test]
fn misused_fragments_are_internal_errors() {
    let bare_lambda = Expr::Lambda(Lambda {
        param: "x".to_string(),
        param_type: Box::new(TypeEnum::Simple(TypePrimitive::UInt64)),
        body: Box::new(Expr::Var("x".to_string())),
    });
    assert_eq!(bare_lambda.compile_raw(), Err(CompilationError::UnappliedFunction));

    let mut ctx = CompilationContext::default();
    let five = Expr::Primitive(Primitive::UInt64(5));
    assert_eq!(
        five.compile(&mut ctx, Some("int 1".to_string())),
        Err(CompilationError::UnusedArgument)
    );
}

#[test]
fn binary_operator_signatures() {
    let mut ctx = TypeContext::default();
    let sum = Expr::Binary(Binary {
        op: BinaryOp::Plus,
        left: Box::new(Expr::Primitive(Primitive::UInt64(1))),
        right: Box::new(Expr::Primitive(Primitive::UInt64(2))),
    });
    assert_eq!(sum.resolve(&mut ctx), Ok(TypeEnum::Simple(TypePrimitive::UInt64)));
    assert_eq!(sum.compile_raw().unwrap(), "int 1\nint 2\n+");

    let bad = Expr::Binary(Binary {
        op: BinaryOp::Plus,
        left: Box::new(Expr::Primitive(Primitive::Byteslice(vec![1]))),
        right: Box::new(Expr::Primitive(Primitive::UInt64(2))),
    });
    assert_eq!(
        bad.resolve(&mut ctx),
        Err(TypeError::Mismatch(
            TypeEnum::Simple(TypePrimitive::UInt64),
            TypeEnum::Simple(TypePrimitive::Byteslice),
        ))
    );

    let eq = Expr::Binary(Binary {
        op: BinaryOp::Equals,
        left: Box::new(Expr::Primitive(Primitive::Byteslice(vec![1]))),
        right: Box::new(Expr::Primitive(Primitive::Byteslice(vec![2]))),
    });
    assert_eq!(eq.resolve(&mut ctx), Ok(TypeEnum::Simple(TypePrimitive::UInt64)));
    assert_eq!(eq.compile_raw().unwrap(), "byte 0x01\nbyte 0x02\n==");
}

#[test]
fn txn_fields_read_with_fixed_types() {
    let mut ctx = TypeContext::default();
    let sender = Expr::Txn(TxnField::Sender);
    assert_eq!(sender.resolve(&mut ctx), Ok(TypeEnum::Simple(TypePrimitive::Byteslice)));
    assert_eq!(sender.compile_raw().unwrap(), "txn Sender");

    let fee = Expr::Txn(TxnField::Fee);
    assert_eq!(fee.resolve(&mut ctx), Ok(TypeEnum::Simple(TypePrimitive::UInt64)));
    assert_eq!(fee.compile_raw().unwrap(), "txn Fee");
}

#[test]
fn sequences_require_void_prefixes() {
    let mut ctx = TypeContext::default();
    let empty = Expr::Sequence(Sequence { exprs: vec![] });
    assert_eq!(empty.resolve(&mut ctx), Err(TypeError::EmptySequence));
    assert_eq!(empty.compile_raw(), Err(CompilationError::EmptySequence));

    let single = Expr::Sequence(Sequence { exprs: vec![Expr::Ret(Ret::Approve)] });
    assert_eq!(single.resolve(&mut ctx), Ok(TypeEnum::Simple(TypePrimitive::Halt)));
    assert_eq!(single.compile_raw().unwrap(), "int 1\nreturn");

    let non_void_prefix = Expr::Sequence(Sequence {
        exprs: vec![Expr::Primitive(Primitive::UInt64(1)), Expr::Ret(Ret::Approve)],
    });
    assert_eq!(
        non_void_prefix.resolve(&mut ctx),
        Err(TypeError::Mismatch(
            TypeEnum::Simple(TypePrimitive::Void),
            TypeEnum::Simple(TypePrimitive::UInt64),
        ))
    );
}

#[test]
fn type_primitive_text_and_names() {
    assert_eq!(TypePrimitive::Void.text(), "<void>");
    assert_eq!(TypePrimitive::UInt64.text(), "int");
    assert_eq!(TypePrimitive::Byteslice.text(), "bytes");
    assert_eq!(TypePrimitive::Halt.text(), "<halt>");

    assert_eq!(TypePrimitive::try_from("Void"), Ok(TypePrimitive::Void));
    assert_eq!(TypePrimitive::try_from("UInt64"), Ok(TypePrimitive::UInt64));
    assert_eq!(TypePrimitive::try_from("Byteslice"), Ok(TypePrimitive::Byteslice));
    assert_eq!(TypePrimitive::try_from("Halt"), Ok(TypePrimitive::Halt));
    assert_eq!(TypePrimitive::try_from("halt"), Err(()));
}

#[test]
fn contract_owns_its_parts() {
    let contract = rusteal::contract::Contract {
        schema_global: rusteal::struct_def::StructDef::default(),
        schema_local: rusteal::struct_def::StructDef::default(),
        txn_approval: Program { root: Expr::Ret(Ret::Approve) },
        txn_clear: Program { root: Expr::Ret(Ret::Reject) },
    };
    assert_eq!(contract.txn_approval.compile().unwrap(), "#pragma version 5\nint 1\nreturn");
    assert_eq!(contract.txn_clear.compile().unwrap(), "#pragma version 5\nint 0\nreturn");
    assert_eq!(contract.schema_global.as_ref().get("anything"), None);
}

#[test]
fn cond_program_with_guards_resolves_and_compiles() {
    let program = Program {
        root: Expr::Cond(Cond {
            arms: vec![
                (
                    Expr::Binary(Binary {
                        op: BinaryOp::Equals,
                        left: Box::new(Expr::Txn(TxnField::OnCompletion)),
                        right: Box::new(Expr::OnComplete(OnComplete::NoOp)),
                    }),
                    Expr::Ret(Ret::Approve),
                ),
                (Expr::Primitive(Primitive::UInt64(1)), Expr::Ret(Ret::Reject)),
            ],
        }),
    };
    let text = program.compile().unwrap();
    assert!(text.starts_with("#pragma version 5\n"));
    assert!(text.contains("txn OnCompletion\nint NoOp\n==\nbnz l0\n"));
    assert!(text.contains("err\n"));
    assert!(text.ends_with("l2:"));
}

#[test]
fn ret_parses_from_variant_names() {
    assert_eq!(Ret::try_from("Approve"), Ok(Ret::Approve));
    assert_eq!(Ret::try_from("Reject"), Ok(Ret::Reject));
    assert_eq!(Ret::try_from("approve"), Err(()));
    assert_eq!(Ret::try_from(""), Err(()));
}
