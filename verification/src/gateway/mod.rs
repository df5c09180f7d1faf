//! The SQL gateway of a node.
pub mod auth;
pub mod client;
pub mod engine;
pub mod rows;
pub mod server;
pub mod transaction;
pub mod values;

pub use auth::AuthConfig;
pub use client::{Client, ClientBackend};
pub use engine::DatabaseEngine;
