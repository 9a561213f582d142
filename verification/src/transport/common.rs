//! The byte transport the Ledger protocol runs over.
use crate::errors::RemoteWalletError;
use vstd::prelude::*;

verus! {

/// What writing packets gives when the transport answers them with
/// `answers`, in turn, and packet `k` must be taken with at least `mins[k]`
/// bytes: the first failed or short write decides; a request may use at most
/// 0xffff packets.
pub open spec fn spec_write_outcome(
    answers: Seq<Result<usize, RemoteWalletError>>,
    mins: Seq<nat>,
) -> Result<(), RemoteWalletError>
    decreases answers.len(),
{
    if answers.len() == 0 {
        Ok(())
    } else {
        match spec_write_outcome(answers.drop_last(), mins) {
            Err(e) => Err(e),
            Ok(()) => match answers.last() {
                Err(e) => Err(e),
                Ok(n) => if n < mins[answers.len() - 1] {
                    Err(RemoteWalletError::Protocol("Write data size mismatch"))
                } else if answers.len() >= 0xffff {
                    Err(RemoteWalletError::Protocol("Maximum sequence number reached"))
                } else {
                    Ok(())
                },
            },
        }
    }
}

/// The transport's written-byte count `n` for a packet that must be taken
/// with at least `expected` bytes: too few is a size mismatch.
pub fn check_written(n: usize, expected: usize) -> (r: Result<(), RemoteWalletError>)
    ensures
        r == (if n < expected {
            Err::<(), RemoteWalletError>(RemoteWalletError::Protocol("Write data size mismatch"))
        } else {
            Ok(())
        }),
{
    if n < expected {
        Err(RemoteWalletError::Protocol("Write data size mismatch"))
    } else {
        Ok(())
    }
}

/// A transport that writes packets and reads them into a buffer.
pub trait Transport {
    /// Whether `res` is an answer this transport gives when `data` is written
    /// to it. A transport that does not say rules out no answer.
    closed spec fn spec_write_answer(&self, data: Seq<u8>, res: Result<usize, RemoteWalletError>) -> bool {
        true
    }

    /// Writes one packet; returns how many bytes were written.
    fn write(&self, data: &[u8]) -> (res: Result<usize, RemoteWalletError>)
        ensures
            self.spec_write_answer(data@, res),
    ;

    /// Reads one packet into `buf`; returns how many bytes of `buf` it filled.
    fn read(&self, buf: &mut [u8]) -> (res: Result<usize, RemoteWalletError>)
        ensures
            res matches Ok(n) ==> n <= old(buf)@.len(),
            final(buf)@.len() == old(buf)@.len(),
    ;

    /// Connects to the device.
    fn connect(&mut self) -> Result<(), RemoteWalletError>;

    /// Disconnects from the device.
    fn disconnect(&mut self);

    /// Whether the transport is connected.
    fn is_connected(&self) -> bool;
}

} // verus!
