//! Structures that are shared with the GSP firmware.

pub mod commands;
