//! SFTP version 3 packets and their framing.

pub mod file_attrs;
pub mod shapes;
pub mod paths;
pub mod by_handle;
pub mod data;
pub mod status;
pub mod name;
pub mod extended;
pub mod version;
pub mod packet;
pub mod framing;
pub mod layout;
