//! The bookkeeping of the epoll and kqueue servers: how a file descriptor
//! travels through the data of an event, which events a client is watched
//! for, and whose event a ready one is.
use crate::poll_socket::ConnectionStatus;
use vstd::prelude::*;

verus! {

/// 2^64.
pub open spec fn u64_modulus() -> int {
    0x1_0000_0000_0000_0000
}

/// The event data that stands for `fd`: its bits sign-extended to 64, as
/// `fd as u64` gives them.
pub open spec fn fd_token(fd: i32) -> u64 {
    if fd >= 0 {
        fd as u64
    } else {
        (fd + u64_modulus()) as u64
    }
}

/// The file descriptor in the event data `token`: its low 32 bits read as
/// a signed number, as `token as i32` gives it.
pub open spec fn token_fd(token: u64) -> i32 {
    let low = token as int % 0x1_0000_0000;
    if low < 0x8000_0000 {
        low as i32
    } else {
        (low - 0x1_0000_0000) as i32
    }
}

/// The event data that stands for `fd`.
pub fn event_data(fd: i32) -> (token: u64)
    ensures
        token == fd_token(fd),
{
    let token = fd as u64;
    assert(token as int == if fd >= 0 {
        fd as int
    } else {
        fd as int + 0x1_0000_0000_0000_0000
    }) by (bit_vector)
        requires
            token == fd as u64,
    ;
    token
}

/// The file descriptor that the event data `token` stands for.
pub fn event_fd(token: u64) -> (fd: i32)
    ensures
        fd == token_fd(token),
{
    let fd = token as i32;
    assert(fd as int == if token % 0x1_0000_0000 < 0x8000_0000 {
        (token % 0x1_0000_0000) as int
    } else {
        (token % 0x1_0000_0000) as int - 0x1_0000_0000
    }) by (bit_vector)
        requires
            fd == token as i32,
    ;
    fd
}

/// The event data of a file descriptor is its bits as Rust's `as` casts
/// give them, both ways.
pub proof fn lemma_event_data_casts(fd: i32, token: u64)
    ensures
        fd_token(fd) == fd as u64,
        token_fd(token) == token as i32,
{
    assert((fd as u64) as int == if fd >= 0 {
        fd as int
    } else {
        fd as int + 0x1_0000_0000_0000_0000
    }) by (bit_vector);
    assert((token as i32) as int == if token % 0x1_0000_0000 < 0x8000_0000 {
        (token % 0x1_0000_0000) as int
    } else {
        (token % 0x1_0000_0000) as int - 0x1_0000_0000
    }) by (bit_vector);
}

/// The event data of a file descriptor gives the file descriptor back.
pub proof fn lemma_event_data_roundtrip(fd: i32)
    ensures
        token_fd(fd_token(fd)) == fd,
{
}

/// The kqueue identifier of `fd`: its bits sign-extended to the width of a
/// `usize`.
pub open spec fn fd_ident(fd: i32) -> usize {
    fd as usize
}

/// The file descriptor that the kqueue identifier `ident` stands for: its low
/// 32 bits read as a signed number.
pub open spec fn ident_fd(ident: usize) -> i32 {
    ident as i32
}

/// The kqueue identifier of `fd`.
pub fn kevent_ident(fd: i32) -> (ident: usize)
    ensures
        ident == fd_ident(fd),
{
    fd as usize
}

/// The file descriptor that the kqueue identifier `ident` stands for.
pub fn kevent_fd(ident: usize) -> (fd: i32)
    ensures
        fd == ident_fd(ident),
{
    ident as i32
}

/// The kqueue identifier of a file descriptor gives the file descriptor
/// back, and no two file descriptors share an identifier.
pub proof fn lemma_kevent_ident_roundtrip(fd: i32, other: i32)
    ensures
        ident_fd(fd_ident(fd)) == fd,
        fd_ident(fd) == fd_ident(other) ==> fd == other,
{
    assert((fd as usize) as i32 == fd) by (bit_vector);
    assert((other as usize) as i32 == other) by (bit_vector);
}

/// Whose event a ready one is.
#[derive(Clone, Copy, Debug, PartialEq, Eq, Structural)]
pub enum EventSource {
    /// The listening socket: new clients are waiting.
    Listener,
    /// The client with this file descriptor sent something.
    Client(i32),
}

/// Whose event the one on `fd` is, with `listener_fd` the listening socket.
pub fn classify(fd: i32, listener_fd: i32) -> (source: EventSource)
    ensures
        source == (if fd == listener_fd {
            EventSource::Listener
        } else {
            EventSource::Client(fd)
        }),
{
    if fd == listener_fd {
        EventSource::Listener
    } else {
        EventSource::Client(fd)
    }
}

/// Whose event the kqueue event with identifier `ident` is: the listener's
/// when the identifier is the listener's, else the client's whose file
/// descriptor the identifier stands for.
pub fn classify_kevent(ident: usize, listener_fd: i32) -> (source: EventSource)
    ensures
        source == (if ident == fd_ident(listener_fd) {
            EventSource::Listener
        } else {
            EventSource::Client(ident_fd(ident))
        }),
{
    if ident == kevent_ident(listener_fd) {
        EventSource::Listener
    } else {
        EventSource::Client(kevent_fd(ident))
    }
}

/// The constants of the epoll interface, as the system's C library gives
/// them (`EPOLLIN`, `EPOLLET`, `EPOLL_CTL_ADD`, `EPOLL_CTL_DEL`). They are
/// handed in by the caller so that the library also builds where epoll
/// does not exist.
#[derive(Clone, Copy, Debug, PartialEq, Eq, Structural)]
pub struct EpollFlags {
    pub epollin: i32,
    pub epollet: i32,
    pub ctl_add: i32,
    pub ctl_del: i32,
}

/// The events that the epoll server watches a socket for: data to read,
/// edge-triggered (`EPOLLIN | EPOLLET` as a `u32`).
pub open spec fn watched_events(flags: EpollFlags) -> u32 {
    (flags.epollin | flags.epollet) as u32
}

/// What an epoll registration watches for and reports: the event mask and
/// the event data, as in the system's `epoll_event`.
#[derive(Clone, Copy, Debug, PartialEq, Eq, Structural)]
pub struct EpollEvent {
    pub events: u32,
    pub data: u64,
}

/// One change to the epoll interest list: `op` on `fd`, and for an
/// addition the events to watch and the data to report with them.
#[derive(Clone, Copy, Debug, PartialEq, Eq, Structural)]
pub struct EpollChange {
    pub op: i32,
    pub fd: i32,
    pub event: Option<EpollEvent>,
}

/// Starts watching `fd` (the listener or a client) for data to read, edge
/// triggered, with `fd` as the event data.
pub fn watch(flags: EpollFlags, fd: i32) -> (change: EpollChange)
    ensures
        change == (EpollChange {
            op: flags.ctl_add,
            fd,
            event: Some(EpollEvent { events: watched_events(flags), data: fd_token(fd) }),
        }),
{
    let events = (flags.epollin | flags.epollet) as u32;
    EpollChange { op: flags.ctl_add, fd, event: Some(EpollEvent { events, data: event_data(fd) }) }
}

/// Stops watching the client `fd`.
pub fn unwatch(flags: EpollFlags, fd: i32) -> (change: EpollChange)
    ensures
        change == (EpollChange { op: flags.ctl_del, fd, event: None }),
{
    EpollChange { op: flags.ctl_del, fd, event: None }
}

/// The change to the epoll interest list once the client `fd` was served
/// with the result `status`: it stops being watched once it closed.
pub fn epoll_after_serving(flags: EpollFlags, fd: i32, status: Option<ConnectionStatus>) -> (change:
    Option<EpollChange>)
    ensures
        status == Some(ConnectionStatus::Closed) ==> change == Some(
            (EpollChange { op: flags.ctl_del, fd, event: None }),
        ),
        status != Some(ConnectionStatus::Closed) ==> change is None,
{
    match status {
        Some(ConnectionStatus::Closed) => Some(unwatch(flags, fd)),
        _ => None,
    }
}

/// One change to a kqueue: start or stop reporting that the file with this
/// identifier has data to read.
#[derive(Clone, Copy, Debug, PartialEq, Eq, Structural)]
pub enum KqueueChange {
    AddRead { ident: usize },
    DeleteRead { ident: usize },
}

/// Starts reporting data to read on `fd`.
pub fn kqueue_watch(fd: i32) -> (change: KqueueChange)
    ensures
        change == (KqueueChange::AddRead { ident: fd_ident(fd) }),
{
    KqueueChange::AddRead { ident: kevent_ident(fd) }
}

/// The change to the kqueue once the client `fd` was served with the result
/// `status`: it stops being reported once it closed.
pub fn kqueue_after_serving(fd: i32, status: Option<ConnectionStatus>) -> (change: Option<
    KqueueChange,
>)
    ensures
        status == Some(ConnectionStatus::Closed) ==> change == Some(
            (KqueueChange::DeleteRead { ident: fd_ident(fd) }),
        ),
        status != Some(ConnectionStatus::Closed) ==> change is None,
{
    match status {
        Some(ConnectionStatus::Closed) => Some(KqueueChange::DeleteRead { ident: kevent_ident(fd) }),
        _ => None,
    }
}

} // verus!
