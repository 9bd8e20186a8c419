//! The Google Drive backend.

pub mod auth;
pub mod client;
pub mod drive;
pub mod laws;
pub mod lookups;
pub mod model;
pub mod paths;
pub mod time;

pub use auth::{CredentialsFile, OAuthClient, PreAuth};
