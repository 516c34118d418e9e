//! SFTP (protocol version 3) packet codec and server-side session handle
//! bookkeeping, with the wire format, the packet framing and the handle
//! table stated and proved in Verus.

pub mod buf;
pub mod error;
pub mod protocol;
pub mod text;
pub mod wire;
pub mod server;
pub mod client;
pub mod utils;
