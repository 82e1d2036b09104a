//! The core of a runtime for a small prototype-based scripting language:
//! a stack bytecode interpreter, its value model with scope records and
//! prototype chains kept in a heap arena, and the decisions of a tracing JIT
//! (hot-site counting, candidacy gates, the permanent record of failed
//! compilations, and marshalling to and from native frames).
//!
//! Numbers are carried as the bit patterns of IEEE-754 doubles. Hot regions
//! are lowered to a typed intermediate form (`lower`). The host performs
//! floating-point arithmetic, builtin functions, and the running of lowered
//! code; the interpreter hands that work back as a `vm::Action`.
use vstd::prelude::*;

pub mod bytecode;
pub mod value;
pub mod heap;
pub mod scope;
pub mod number;
pub mod property;
pub mod jit;
pub mod intrinsics;
pub mod fv_finder;
pub mod vm;
pub mod globals;
pub mod gc;
pub mod lower;

verus! {

} // verus!
