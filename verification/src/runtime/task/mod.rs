//! Tasks.

pub mod abort;
pub mod arena;
pub mod error;
pub mod id;
pub mod join;
pub mod list;
pub mod owned;
pub mod raw;
pub mod state;
pub mod waker;
