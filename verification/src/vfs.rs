//! The decisions of the servers that work on raw file descriptors: what a
//! read from a client leads to, and what the answer to it leads to.
use crate::io_outcome::IoOutcome;
use vstd::prelude::*;

verus! {

/// Whether a client is still connected after it was served.
#[derive(Clone, Copy, Debug, PartialEq, Eq, Structural)]
pub enum ConnectionStatus {
    Established,
    Closed,
}

/// What follows a read from a client.
#[derive(Debug)]
pub enum AfterRead<E> {
    /// The read received this many bytes: report them and answer the client.
    Respond(usize),
    /// Serving the client ends here with this result.
    Finish(Result<ConnectionStatus, E>),
}

/// What follows the read `read` from a client: a closed connection on a read
/// of zero bytes, an answer on data, nothing to do when the socket was not
/// ready, and the error of any other failure.
pub fn after_read<E>(read: IoOutcome<E>) -> (next: AfterRead<E>)
    ensures
        match read {
            IoOutcome::Done(n) => if n == 0 {
                next == AfterRead::<E>::Finish(Ok(ConnectionStatus::Closed))
            } else {
                next == AfterRead::<E>::Respond(n)
            },
            IoOutcome::WouldBlock(_) => next == AfterRead::<E>::Finish(
                Ok(ConnectionStatus::Established),
            ),
            IoOutcome::Failed(e) => next == AfterRead::<E>::Finish(Err(e)),
        },
{
    match read {
        IoOutcome::Done(n) => if n == 0 {
            AfterRead::Finish(Ok(ConnectionStatus::Closed))
        } else {
            AfterRead::Respond(n)
        },
        IoOutcome::WouldBlock(_) => AfterRead::Finish(Ok(ConnectionStatus::Established)),
        IoOutcome::Failed(e) => AfterRead::Finish(Err(e)),
    }
}

/// What follows the write of the answer to a client: the connection stays
/// established when the write went through, whatever its byte count, and
/// any error, a socket that is not ready included, is returned.
pub fn after_reply<E>(write: IoOutcome<E>) -> (status: Result<ConnectionStatus, E>)
    ensures
        match write {
            IoOutcome::Done(_) => status == Ok::<ConnectionStatus, E>(ConnectionStatus::Established),
            IoOutcome::WouldBlock(e) => status == Err::<ConnectionStatus, E>(e),
            IoOutcome::Failed(e) => status == Err::<ConnectionStatus, E>(e),
        },
{
    match write {
        IoOutcome::Done(_) => Ok(ConnectionStatus::Established),
        IoOutcome::WouldBlock(e) => Err(e),
        IoOutcome::Failed(e) => Err(e),
    }
}

/// What accepting the client `fd` gives once its greeting was written: the
/// file descriptor when the write went through, whatever its byte count,
/// and otherwise the error, a socket that is not ready included.
pub fn after_greeting<E>(fd: i32, write: IoOutcome<E>) -> (accepted: Result<i32, E>)
    ensures
        match write {
            IoOutcome::Done(_) => accepted == Ok::<i32, E>(fd),
            IoOutcome::WouldBlock(e) => accepted == Err::<i32, E>(e),
            IoOutcome::Failed(e) => accepted == Err::<i32, E>(e),
        },
{
    match write {
        IoOutcome::Done(_) => Ok(fd),
        IoOutcome::WouldBlock(e) => Err(e),
        IoOutcome::Failed(e) => Err(e),
    }
}

} // verus!
