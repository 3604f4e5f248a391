//! What the planned dispatches mean: how the shaders walk memory by the blocks
//! that they are given, and what they touch of the tensors of a request.

pub mod abi;
pub mod acceptance;
pub mod attention;
pub mod elementwise;
pub mod graph;
pub mod matmul;
pub mod measuring;
pub mod memory;
pub mod requests;
pub mod routes;
pub mod schedules;
