//! Device transports.

pub mod common;
pub mod mock_transport;
pub mod transport_trait;
