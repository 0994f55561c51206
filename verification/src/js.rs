//! What a response handler works on, and what is left of its run.

pub mod client;
pub mod runtime;
