//! Where addresses are.

pub mod cache;
pub mod lookup;
