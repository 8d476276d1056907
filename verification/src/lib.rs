//! A verified compiler backend for a lazy tensor-computation engine: a
//! liveness-based GPU buffer allocator, a caching WGSL kernel compiler, and
//! a linear executable assembler sharing one uniform buffer.

pub mod allocator;
pub mod compile;
pub mod dtype;
pub mod executable;
pub mod kernel_builder;
pub mod op;
pub mod ops;
pub mod pool;
pub mod resources;
pub mod shape;
pub mod strutil;
pub mod workload;
pub mod tensor;
pub mod uniform;

use vstd::prelude::*;

verus! {

} // verus!
