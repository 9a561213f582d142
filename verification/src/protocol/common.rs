//! The interface of device protocols.
use crate::errors::RemoteWalletError;
use vstd::prelude::*;

verus! {

/// A device protocol.
pub trait Protocol {
    /// Sends a raw command and returns the raw reply.
    fn send_command(&self, command: &[u8]) -> Result<Vec<u8>, RemoteWalletError>;
}

} // verus!
