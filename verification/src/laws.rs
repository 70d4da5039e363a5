//! What callers can rely on, stated of the functions themselves.
//!
//! Each law takes what went into one or more calls and what came out of them, and says how
//! the two relate: in numbers, single bytes and fields, without the terms in which the
//! contracts of the functions are written.

pub mod bytes;
pub mod commands;
pub mod firmware;
pub mod headers;
pub mod irq;
pub mod memory;
pub mod numbers;
pub mod queue;
pub mod rm_control;
pub mod sbuffer;
pub mod text;
pub mod transfer;
