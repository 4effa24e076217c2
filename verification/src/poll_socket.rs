//! The client table of the poll, epoll and kqueue servers: each connected
//! client's stream under its file descriptor.
use crate::io_outcome::IoOutcome;
use std::collections::HashMap;
use vstd::prelude::*;

verus! {

/// How serving a client that had something to read ended.
#[derive(Clone, Copy, Debug, PartialEq, Eq, Structural)]
pub enum ConnectionStatus {
    Established,
    Closed,
}

/// The connected clients' streams, keyed by file descriptor.
pub struct Connection<S> {
    clients: HashMap<i32, S>,
}

impl<S> View for Connection<S> {
    type V = Map<i32, S>;

    closed spec fn view(&self) -> Map<i32, S> {
        self.clients@
    }
}

/// The status that a read with outcome `read` leads to; `None` when the
/// socket was not ready.
pub open spec fn read_status<E>(read: IoOutcome<E>) -> Option<ConnectionStatus> {
    match read {
        IoOutcome::Done(n) => if n == 0 {
            Some(ConnectionStatus::Closed)
        } else {
            Some(ConnectionStatus::Established)
        },
        IoOutcome::WouldBlock(_) => None,
        IoOutcome::Failed(_) => Some(ConnectionStatus::Closed),
    }
}

impl<S> Connection<S> {
    /// An empty table.
    pub fn new() -> (conn: Self)
        ensures
            conn@ == Map::<i32, S>::empty(),
    {
        Connection { clients: HashMap::new() }
    }

    /// Registers `stream` under `fd`, in place of any stream that was there.
    pub fn accept_new_client(&mut self, fd: i32, stream: S)
        ensures
            final(self)@ == old(self)@.insert(fd, stream),
    {
        self.clients.insert(fd, stream);
    }

    /// Whether `fd` is registered.
    pub fn contains(&self, fd: i32) -> (found: bool)
        ensures
            found == self@.contains_key(fd),
    {
        self.clients.contains_key(&fd)
    }

    /// Takes the stream of `fd` out of the table to serve it; `None` when
    /// `fd` is not registered.
    pub fn take_client(&mut self, fd: i32) -> (stream: Option<S>)
        ensures
            final(self)@ == old(self)@.remove(fd),
            match stream {
                Some(s) => old(self)@.contains_key(fd) && s == old(self)@[fd],
                None => !old(self)@.contains_key(fd),
            },
    {
        self.clients.remove(&fd)
    }

    /// Records the outcome `read` of a read from the stream of `fd`, taken
    /// out with `take_client` and answered by the caller when it received
    /// data: the stream goes back under `fd` unless the peer closed the
    /// connection or the read failed, in which case it is handed back to be
    /// closed; the client's status is returned with it.
    pub fn receive_data_and_respond<E>(&mut self, fd: i32, stream: S, read: IoOutcome<E>) -> (res: (
        Option<ConnectionStatus>,
        Option<S>,
    ))
        ensures
            res.0 == read_status(read),
            res.0 == Some(ConnectionStatus::Closed) ==> final(self)@ == old(self)@ && res.1 == Some(
                stream,
            ),
            res.0 != Some(ConnectionStatus::Closed) ==> final(self)@ == old(self)@.insert(
                fd,
                stream,
            ) && res.1 is None,
    {
        match read {
            IoOutcome::Done(n) => {
                if n == 0 {
                    (Some(ConnectionStatus::Closed), Some(stream))
                } else {
                    self.clients.insert(fd, stream);
                    (Some(ConnectionStatus::Established), None)
                }
            },
            IoOutcome::WouldBlock(_) => {
                self.clients.insert(fd, stream);
                (None, None)
            },
            IoOutcome::Failed(_) => (Some(ConnectionStatus::Closed), Some(stream)),
        }
    }
}

/// A client stays connected exactly when the read brought data or the
/// socket was not ready; it is closed exactly when the read brought no byte
/// (the peer closed) or failed; and only a read of data gives the status
/// `Established`, for every positive byte count.
pub proof fn lemma_read_status<E>(read: IoOutcome<E>)
    ensures
        read_status(read) == Some(ConnectionStatus::Established) <==> read.spec_received_data(),
        read_status(read) == Some(ConnectionStatus::Closed) <==> (read == IoOutcome::<E>::Done(0)
            || read is Failed),
        read_status(read) is None <==> read is WouldBlock,
        forall|n: usize|
            n > 0 ==> #[trigger] read_status(IoOutcome::<E>::Done(n)) == Some(
                ConnectionStatus::Established,
            ),
{
}

/// Serving a registered client that stays connected leaves the table as it
/// was: taking its stream out and putting it back under the same file
/// descriptor restores every entry.
pub proof fn lemma_serving_keeps_table<S>(clients: Map<i32, S>, fd: i32)
    requires
        clients.contains_key(fd),
    ensures
        clients.remove(fd).insert(fd, clients[fd]) == clients,
{
    assert(clients.remove(fd).insert(fd, clients[fd]) =~= clients);
}

} // verus!
