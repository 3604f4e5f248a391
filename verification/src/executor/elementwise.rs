//! Model operations other than matrix products: softmax, norms, rotary
//! embedding, copies, attention.

pub mod attn;
pub mod common;
pub mod flash;
pub mod gemv_chain;
pub mod ops;
pub mod pc;
