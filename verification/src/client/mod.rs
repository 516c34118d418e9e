//! Client-side state and the decisions of the packet loop.

pub mod dispatch;
pub mod file_state;
