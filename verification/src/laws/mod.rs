//! The laws of the solver: what holds of several of its functions together.

pub mod contacts;
pub mod free_fall;
pub mod replay;
