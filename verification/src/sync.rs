//! Simple synchronous endpoints: a collecting sink, a cycling source and
//! the trivial endpoints that swallow or repeat items forever.

pub mod into_vec;
pub mod repeat;
pub mod trivial;
