//! Caches of file contents and of file metadata.

pub mod fs;
pub mod meta;
