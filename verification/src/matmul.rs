//! Matrix multiplication requests and their shape resolution.

pub mod api;

pub mod resolution;
