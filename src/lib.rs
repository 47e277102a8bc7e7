//! A synthetic filesystem over a remote comic archive: the inode address
//! space, the protocol decisions, the retrieval policy, and the line
//! breaking and JPEG pixel normalisation that the compositor uses.

pub mod decimal;
pub mod file;
pub mod request;
pub mod comic;
pub mod fs;
pub mod layout;
pub mod raster;
