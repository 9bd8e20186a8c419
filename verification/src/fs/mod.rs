//! The mounted filesystem.

pub mod laws;
pub mod listings;
pub mod model;
pub mod protocol;
pub mod remote;
pub mod requests;
pub mod runs;
pub mod starts;
