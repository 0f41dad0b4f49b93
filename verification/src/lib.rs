//! A compiler for a small typed expression language that targets the textual
//! assembly of a stack-based smart-contract virtual machine.
//!
//! The crate is organised around three concerns:
//! - the type model: primitive and arrow types with structural unification
//!   ([`typing`]);
//! - the expression tree with its two-phase contract, type resolution and
//!   code generation ([`expression`], [`resolve`], [`compile`]);
//! - the source-level literal and schema grammar ([`primitives`], [`types`],
//!   [`utils`]).

pub mod compile;
pub mod context;
pub mod contract;
pub mod expression;
pub mod parse_error;
pub mod primitives;
pub mod program;
pub mod resolve;
pub mod struct_def;
pub mod types;
pub mod typing;
pub mod utils;
