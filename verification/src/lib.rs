//! Mount remote filesystems locally, with a local disk cache for fast repeated access.

pub mod assoc;
pub mod backend;
pub mod cache;
pub mod cli;
pub mod clock;
pub mod digest;
pub mod fs;
pub mod inode;
pub mod json;
pub mod lock;
pub mod mount;
pub mod number;
pub mod path;
pub mod shared;
pub mod sorting;
pub mod stat;
pub mod text;

pub use fs::remote::RemoteFs;
