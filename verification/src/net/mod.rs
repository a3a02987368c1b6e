//! Networking.

pub mod addr;
