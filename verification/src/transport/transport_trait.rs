//! The transport a wallet talks to its device through.
use crate::errors::RemoteWalletError;
use vstd::prelude::*;

verus! {

/// A transport to a device (USB HID, Bluetooth, network, a test double).
pub trait Transport {
    /// Connects to the device.
    fn connect(&mut self) -> Result<(), RemoteWalletError>;

    /// Disconnects from the device.
    fn disconnect(&mut self);

    /// Whether the transport is connected.
    fn is_connected(&self) -> bool;

    /// Whether `res` is an answer this transport gives when `data` is written
    /// to it. A transport that does not say rules out no answer.
    closed spec fn spec_write_answer(&self, data: Seq<u8>, res: Result<usize, RemoteWalletError>) -> bool {
        true
    }

    /// Writes one packet; returns how many bytes were written.
    fn write(&self, data: &[u8]) -> (res: Result<usize, RemoteWalletError>)
        ensures
            self.spec_write_answer(data@, res),
    ;

    /// Reads one packet.
    fn read(&self) -> Result<Vec<u8>, RemoteWalletError>;
}

} // verus!
