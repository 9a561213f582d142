//! Hardware wallet support: device protocols, error conversions and the
//! framing of the USB HID transports used by Ledger and Keystone devices.

pub mod keystone_protocol;
pub mod text;
pub mod keys;
pub mod locator;
pub mod errors;
pub mod transport;
pub mod wallet;
pub mod remote_wallet;
pub mod hardware_wallet;
pub mod trezor;
pub mod json;
pub mod ur_protocol;
pub mod protocol;
pub mod api;
pub mod wallet_impl;
pub mod wallet_factory;
pub mod keystone;

pub use transport::transport_trait::Transport;
