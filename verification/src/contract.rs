//! The top-level unit a packager consumes: two storage schemas and two
//! programs.

use vstd::prelude::*;

use crate::program::Program;
use crate::struct_def::StructDef;

verus! {

/// A contract: the declared global and local storage schemas, the approval
/// program and the clear-state program. The contract owns its four parts
/// and has no computed behaviour of its own.
#[derive(Debug)]
pub struct Contract {
    pub schema_global: StructDef,
    pub schema_local: StructDef,
    pub txn_approval: Program,
    pub txn_clear: Program,
}

} // verus!
