//! The client of the SQL gateway.
pub mod config;
pub mod discovery;
pub mod error;
pub mod session;

pub use config::{ClientConfig, ClientTarget, DiscoveryMode, RuntimeMode, SqlGatewayManager};
pub use error::{ClientError, ClientResult};
pub use session::SqlGatewayClient;
