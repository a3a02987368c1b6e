//! A single-threaded runtime whose reactor is an io_uring ring.
//!
//! The target is x86-64 Linux, whose error numbers, layouts and byte order these are.

pub mod io_uring;
pub mod net;
pub mod runtime;
