//! Typed construction of intermediate code for a just-in-time compiler.
use vstd::prelude::*;

pub mod kind;
pub mod types;
pub mod typecs;
pub mod compile;
pub mod flags;
pub mod context;
pub mod function;
pub mod elf;
pub mod expr;
pub mod derive;

verus! {

} // verus!
