//! Planning core of a Vulkan compute library for batched matrix
//! multiplication.
//!
//! Everything in this crate decides: which kernel a shape takes, how a
//! dispatch is laid out, which push constants it carries, where a barrier
//! is owed, which request is refused and why. Recording those decisions
//! into command buffers is left to the program around it.

pub mod arith;
pub mod text;

pub mod device;
pub mod dtype;
pub mod error;
pub mod context;
pub mod executor;
pub mod half;
pub mod matmul;
pub mod pipeline;
pub mod tensor;
pub mod bench;
pub mod persistent;
pub mod push;
pub mod semantics;
pub mod testing;
