//! The outcome of one read or write on a socket, as the servers classify it.
use vstd::prelude::*;

verus! {

/// What one read or write on a non-blocking socket gave: a byte count, or
/// an error that either says the socket is not ready or is any other
/// failure. The error value itself is carried through untouched.
#[derive(Debug)]
pub enum IoOutcome<E> {
    /// The call transferred this many bytes; a read of zero bytes means the
    /// peer closed the connection.
    Done(usize),
    /// The socket was not ready (the error kind `WouldBlock`).
    WouldBlock(E),
    /// Any other error.
    Failed(E),
}

impl<E> IoOutcome<E> {
    /// Whether a read with this outcome received data, so that the servers
    /// answer it.
    pub open spec fn spec_received_data(&self) -> bool {
        match self {
            IoOutcome::Done(n) => *n > 0,
            _ => false,
        }
    }

    /// Whether a read with this outcome received data.
    pub fn received_data(&self) -> (received: bool)
        ensures
            received == self.spec_received_data(),
    {
        match self {
            IoOutcome::Done(n) => *n > 0,
            _ => false,
        }
    }
}

/// The byte count that a `read` or `write` system call reports through its
/// return value `res`: none when it is negative, which means that the call
/// failed and left its error in `errno`.
pub fn byte_count(res: isize) -> (count: Option<usize>)
    ensures
        count == (if res >= 0 {
            Some(res as usize)
        } else {
            None::<usize>
        }),
{
    if res >= 0 {
        Some(res as usize)
    } else {
        None
    }
}

} // verus!
