//! What the servers do with the outcome of one `accept` on their
//! non-blocking listening socket.
use crate::poll_set::{create_pool_fd, pollin, PollFd};
use vstd::prelude::*;

verus! {

/// What one `accept` gave: a new client, a listener with nobody waiting
/// (the error kind `WouldBlock`), or any other error.
#[derive(Debug)]
pub enum AcceptOutcome<T, E> {
    Accepted(T),
    WouldBlock(E),
    Failed(E),
}

/// What an accept loop does next.
#[derive(Debug)]
pub enum NextAccept<T, E> {
    /// Take on this client, then accept again.
    Serve(T),
    /// Nobody else is waiting: stop accepting for now.
    Done,
    /// Report this error and stop accepting for now.
    Report(E),
}

/// The accept loops of the poll, epoll and blocking servers: a new client is
/// taken on and the loop goes on; it stops when nobody is waiting, and
/// after reporting any other error.
pub fn next_accept<T, E>(outcome: AcceptOutcome<T, E>) -> (next: NextAccept<T, E>)
    ensures
        match outcome {
            AcceptOutcome::Accepted(client) => next == NextAccept::<T, E>::Serve(client),
            AcceptOutcome::WouldBlock(_) => next == NextAccept::<T, E>::Done,
            AcceptOutcome::Failed(e) => next == NextAccept::<T, E>::Report(e),
        },
{
    match outcome {
        AcceptOutcome::Accepted(client) => NextAccept::Serve(client),
        AcceptOutcome::WouldBlock(_) => NextAccept::Done,
        AcceptOutcome::Failed(e) => NextAccept::Report(e),
    }
}

/// One poll of an asynchronous accept.
#[derive(Debug)]
pub enum AcceptPoll<T, E> {
    /// The accept is over with this result.
    Ready(Result<T, E>),
    /// Nobody is waiting yet: watch the listener with this entry and poll
    /// again later.
    Pending(PollFd),
}

/// The asynchronous accept of the poll client-server demo, on the listener
/// `listener_fd`: a new client or any error ends it; when nobody is waiting,
/// the listener is to be watched for data to read and the accept polled
/// again.
pub fn accept_poll<T, E>(listener_fd: i32, outcome: AcceptOutcome<T, E>) -> (step: AcceptPoll<T, E>)
    ensures
        match outcome {
            AcceptOutcome::Accepted(client) => step == AcceptPoll::<T, E>::Ready(Ok(client)),
            AcceptOutcome::WouldBlock(_) => step == AcceptPoll::<T, E>::Pending(
                PollFd { fd: listener_fd, events: pollin(), revents: 0 },
            ),
            AcceptOutcome::Failed(e) => step == AcceptPoll::<T, E>::Ready(Err(e)),
        },
{
    match outcome {
        AcceptOutcome::Accepted(client) => AcceptPoll::Ready(Ok(client)),
        AcceptOutcome::WouldBlock(_) => AcceptPoll::Pending(create_pool_fd(listener_fd)),
        AcceptOutcome::Failed(e) => AcceptPoll::Ready(Err(e)),
    }
}

} // verus!
