//! A transport that talks to no device, for tests and development.
use crate::errors::RemoteWalletError;
use crate::transport::transport_trait::Transport;
use std::collections::VecDeque;
use vstd::cell::invcell::InvCell;
use vstd::predicate::Predicate;
use vstd::prelude::*;

verus! {

/// The invariant of a cell that may hold any value.
pub struct AnyContents;

impl<T> Predicate<T> for AnyContents {
    open spec fn predicate(&self, v: T) -> bool {
        true
    }
}

/// Mock transport: it tracks its connection state; while connected it
/// records every write and answers each read with the oldest queued packet
/// (an empty one when none is queued). The queue and the history sit in
/// cells, since the transport's `write` and `read` take `&self`.
pub struct MockTransport {
    connected: bool,
    read_queue: InvCell<VecDeque<Vec<u8>>, AnyContents>,
    write_history: InvCell<Vec<Vec<u8>>, AnyContents>,
}

impl MockTransport {
    pub closed spec fn spec_connected(&self) -> bool {
        self.connected
    }

    pub fn new() -> (res: Self)
        ensures
            !res.spec_connected(),
    {
        MockTransport {
            connected: false,
            read_queue: InvCell::new(VecDeque::new(), Ghost(AnyContents)),
            write_history: InvCell::new(Vec::new(), Ghost(AnyContents)),
        }
    }

    /// Adds data at the back of the read queue.
    pub fn add_read_data(&mut self, data: Vec<u8>)
        ensures
            final(self).spec_connected() == old(self).spec_connected(),
    {
        let mut queue = self.read_queue.replace(VecDeque::new());
        queue.push_back(data);
        let _ = self.read_queue.replace(queue);
    }

    /// The packets written so far, oldest first.
    pub fn get_write_history(&self) -> (res: Vec<Vec<u8>>) {
        let history = self.write_history.replace(Vec::new());
        let copy = history.clone();
        let _ = self.write_history.replace(history);
        copy
    }

    /// Clears the write history.
    pub fn clear_write_history(&mut self)
        ensures
            final(self).spec_connected() == old(self).spec_connected(),
    {
        let _ = self.write_history.replace(Vec::new());
    }
}

impl Transport for MockTransport {
    /// While connected every byte counts as written; otherwise the write fails.
    open spec fn spec_write_answer(&self, data: Seq<u8>, res: Result<usize, RemoteWalletError>) -> bool {
        if self.spec_connected() {
            res == Ok::<usize, RemoteWalletError>(data.len() as usize)
        } else {
            res == Err::<usize, RemoteWalletError>(RemoteWalletError::Protocol("Not connected"))
        }
    }

    fn connect(&mut self) -> (res: Result<(), RemoteWalletError>)
        ensures
            res is Ok,
            final(self).spec_connected(),
    {
        self.connected = true;
        Ok(())
    }

    fn disconnect(&mut self)
        ensures
            !final(self).spec_connected(),
    {
        self.connected = false;
    }

    fn is_connected(&self) -> (res: bool)
        ensures
            res == self.spec_connected(),
    {
        self.connected
    }

    /// Records the packet in the write history; all of it counts as written.
    fn write(&self, data: &[u8]) -> (res: Result<usize, RemoteWalletError>)
        ensures
            self.spec_connected() ==> res == Ok::<usize, RemoteWalletError>(data@.len() as usize),
            !self.spec_connected() ==> res == Err::<usize, RemoteWalletError>(
                RemoteWalletError::Protocol("Not connected"),
            ),
    {
        if !self.connected {
            return Err(RemoteWalletError::Protocol("Not connected"));
        }
        let mut history = self.write_history.replace(Vec::new());
        history.push(vstd::slice::slice_to_vec(data));
        let _ = self.write_history.replace(history);
        Ok(data.len())
    }

    /// Takes the oldest queued packet, or an empty one when none is queued.
    fn read(&self) -> (res: Result<Vec<u8>, RemoteWalletError>)
        ensures
            self.spec_connected() ==> res is Ok,
            !self.spec_connected() ==> res == Err::<Vec<u8>, RemoteWalletError>(
                RemoteWalletError::Protocol("Not connected"),
            ),
    {
        if !self.connected {
            return Err(RemoteWalletError::Protocol("Not connected"));
        }
        let mut queue = self.read_queue.replace(VecDeque::new());
        let front = queue.pop_front();
        let _ = self.read_queue.replace(queue);
        match front {
            Some(v) => Ok(v),
            None => Ok(Vec::new()),
        }
    }
}

impl Default for MockTransport {
    fn default() -> (res: Self)
        ensures
            !res.spec_connected(),
    {
        Self::new()
    }
}

} // verus!
