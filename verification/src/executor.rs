//! Planning of submissions: what is refused, what is dispatched and in which
//! order.

pub mod cells;
pub mod dispatch;
pub mod elementwise;
pub mod graph;
pub mod graph_ops;
pub mod hazard;
pub mod plan;
pub mod prepared;
pub mod recording;
pub mod reduction;
pub mod splitk;
pub mod splitk2;
pub mod streamk_exec;
pub mod streamk_schedule;
pub mod transfer;
pub mod tuning;
pub mod validation;
