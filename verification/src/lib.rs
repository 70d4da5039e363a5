//! The part of a driver for NVIDIA GPUs that talks to the GPU System Processor (GSP).
//!
//! The driver and the GSP share memory. In it are two queues, each a ring of pages: the
//! driver writes commands into one of them, and the GSP writes messages into the other one.
//!
//! - [`gsp::cmdq`] holds the queues: which pages belong to the driver, how a command gets
//!   into them and how a message gets out. [`gsp::ring`] and [`gsp::checksum`] describe the
//!   rings and the checksum of messages.
//! - [`gsp::commands`] and [`gsp::rm_control`] send commands, and [`irq`] asks for the
//!   interrupt table.
//! - [`gsp`] sets up the memory that the GSP boots with, and [`nvfw`] holds the structures
//!   that are shared with its firmware.
//! - [`sbuffer`] reads and writes discontiguous slices, as they come from a ring that
//!   wraps.
//! - [`laws`] states what callers can rely on, byte by byte and field by field.
//!
//! The shared memory is plain data here. Copying it from and to the device, in an order that
//! the device can rely on, is left to the caller, and so are the doorbell and the clock.
pub mod bytes;
pub mod cstring;
pub mod dma;
pub mod error;
pub mod fb;
pub mod firmware;
pub mod gpu;
pub mod gsp;
pub mod irq;
pub mod laws;
pub mod num;
pub mod nvfw;
pub mod ptr;
pub mod sbuffer;
pub mod util;
