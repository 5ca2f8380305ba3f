//! Functions to compress and write files' metadata and blocks.
pub mod block;
pub mod compression;
pub mod encode;
pub mod file;

pub use block::write_block;
pub use compression::compress;
pub use file::write_metadata;
pub use encode::zigzag_encode;
