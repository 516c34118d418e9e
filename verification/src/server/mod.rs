//! Server-side session state and the decisions of the request loop.

pub mod handles;
pub mod serve;
pub mod session;
