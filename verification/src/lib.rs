//! Adding a packed crate to a vendor directory: the decisions of the
//! unpacking, apart from the reading of the archive and the writing of the
//! files.

pub mod bytes;
pub mod error;
pub mod laws;
pub mod path;
pub mod unpack;
