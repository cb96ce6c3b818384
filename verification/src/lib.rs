//! A columnar query engine that compiles relational plans to GPU compute
//! programs: plan lowering, shader generation, binding layout, dispatch
//! geometry and result accumulation.

pub mod engine;
pub mod error;
pub mod executor;
pub mod gpu;
pub mod jit;
pub mod ordered;
pub mod schema;
pub mod sub;
pub mod text;
