//! The kernel interface.

pub mod cq;
pub mod flags;
pub mod op;
pub mod queue;
pub mod ring;
pub mod sq;
pub mod sys;
pub mod syscall;
