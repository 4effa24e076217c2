//! The io_uring server's reaction to one completion: what it submits next,
//! what it reports, and how its table of client buffers changes.
use crate::op_type::{decode, encode, OpType, DISCONNECTED};
use crate::uring_socket::{filled, fresh_buffer, Connection};
use vstd::prelude::*;

verus! {

/// The two messages that the server writes to its clients.
#[derive(Clone, Copy, Debug, PartialEq, Eq, Structural)]
pub enum Reply {
    /// Sent once, when a client is accepted.
    Greeting,
    /// Sent after each message received from a client.
    Acknowledgement,
}

/// The text of a reply, as the server writes it.
pub fn reply_text(reply: Reply) -> (text: &'static str)
    ensures
        reply == Reply::Greeting ==> text@ == "Hello from io-uring server !\n"@,
        reply == Reply::Acknowledgement ==> text@ == "io_uring server received your message !\n"@,
{
    match reply {
        Reply::Greeting => "Hello from io-uring server !\n",
        Reply::Acknowledgement => "io_uring server received your message !\n",
    }
}

/// One thing for the event loop to do after a completion, in order.
#[derive(Debug)]
pub enum Action {
    /// Submit an accept on the listening socket, tagged with `user_data`.
    SubmitAccept { listener_fd: i32, user_data: u64 },
    /// Submit a write of `reply` to `fd`, tagged with `user_data`.
    SubmitWrite { fd: i32, reply: Reply, user_data: u64 },
    /// Submit a read from `fd` into a copy of `buffer`, tagged with `user_data`.
    SubmitRead { fd: i32, buffer: Vec<u8>, user_data: u64 },
    /// Report a failed completion whose error number is `errno`.
    ReportError { errno: i32 },
    /// Report that the client `fd` was accepted.
    ReportAccepted { fd: i32 },
    /// Report the data received from `fd`.
    ReportReceived { fd: i32, data: Vec<u8> },
    /// Report that `fd` closed its connection.
    ReportDisconnected { fd: i32 },
    /// Close the file descriptor `fd`.
    Close { fd: i32 },
    /// Report that a write to `fd` finished.
    ReportWriteFinished { fd: i32 },
}

/// An action, with its byte vectors seen as sequences.
pub enum ActionView {
    SubmitAccept { listener_fd: i32, user_data: u64 },
    SubmitWrite { fd: i32, reply: Reply, user_data: u64 },
    SubmitRead { fd: i32, buffer: Seq<u8>, user_data: u64 },
    ReportError { errno: i32 },
    ReportAccepted { fd: i32 },
    ReportReceived { fd: i32, data: Seq<u8> },
    ReportDisconnected { fd: i32 },
    Close { fd: i32 },
    ReportWriteFinished { fd: i32 },
}

impl View for Action {
    type V = ActionView;

    open spec fn view(&self) -> ActionView {
        match self {
            Action::SubmitAccept { listener_fd, user_data } => ActionView::SubmitAccept {
                listener_fd: *listener_fd,
                user_data: *user_data,
            },
            Action::SubmitWrite { fd, reply, user_data } => ActionView::SubmitWrite {
                fd: *fd,
                reply: *reply,
                user_data: *user_data,
            },
            Action::SubmitRead { fd, buffer, user_data } => ActionView::SubmitRead {
                fd: *fd,
                buffer: buffer@,
                user_data: *user_data,
            },
            Action::ReportError { errno } => ActionView::ReportError { errno: *errno },
            Action::ReportAccepted { fd } => ActionView::ReportAccepted { fd: *fd },
            Action::ReportReceived { fd, data } => ActionView::ReportReceived {
                fd: *fd,
                data: data@,
            },
            Action::ReportDisconnected { fd } => ActionView::ReportDisconnected { fd: *fd },
            Action::Close { fd } => ActionView::Close { fd: *fd },
            Action::ReportWriteFinished { fd } => ActionView::ReportWriteFinished { fd: *fd },
        }
    }
}

/// The completions that the server handles without failing: an error code
/// that can be negated, and otherwise a known operation code, a read of at
/// most a buffer's length from a registered client whose bytes `received`
/// holds, or a write to a registered client.
pub open spec fn handled(
    buffers: Map<i32, Seq<u8>>,
    result: i32,
    user_data: u64,
    received: Seq<u8>,
) -> bool {
    if result < 0 {
        result != i32::MIN
    } else {
        match decode(user_data) {
            None => false,
            Some(OpType::Accept) => true,
            Some(OpType::Read(fd)) => result != DISCONNECTED ==> {
                &&& buffers.contains_key(fd)
                &&& result <= buffers[fd].len()
                &&& result <= received.len()
            },
            Some(OpType::Write(fd)) => buffers.contains_key(fd),
        }
    }
}

/// The buffer table after a completion; `received` holds the bytes that a
/// read completion brought.
pub open spec fn buffers_after(
    buffers: Map<i32, Seq<u8>>,
    result: i32,
    user_data: u64,
    received: Seq<u8>,
) -> Map<i32, Seq<u8>> {
    if result < 0 {
        buffers
    } else {
        match decode(user_data) {
            Some(OpType::Accept) => buffers.insert(result, fresh_buffer()),
            Some(OpType::Read(fd)) => if result == DISCONNECTED {
                buffers.remove(fd)
            } else {
                buffers.insert(fd, filled(buffers[fd], received.subrange(0, result as int)))
            },
            _ => buffers,
        }
    }
}

/// The actions that follow a completion, in order; `received` holds the
/// bytes that a read completion brought.
pub open spec fn actions_after(
    buffers: Map<i32, Seq<u8>>,
    listener_fd: i32,
    result: i32,
    user_data: u64,
    received: Seq<u8>,
) -> Seq<ActionView> {
    if result < 0 {
        seq![ActionView::ReportError { errno: -result as i32 }]
    } else {
        match decode(user_data) {
            Some(OpType::Accept) => seq![
                ActionView::SubmitAccept { listener_fd, user_data: encode(OpType::Accept) },
                ActionView::ReportAccepted { fd: result },
                ActionView::SubmitWrite {
                    fd: result,
                    reply: Reply::Greeting,
                    user_data: encode(OpType::Write(result)),
                },
            ],
            Some(OpType::Read(fd)) => if result == DISCONNECTED {
                seq![ActionView::ReportDisconnected { fd }, ActionView::Close { fd }]
            } else {
                seq![
                    ActionView::ReportReceived { fd, data: received.subrange(0, result as int) },
                    ActionView::SubmitWrite {
                        fd,
                        reply: Reply::Acknowledgement,
                        user_data: encode(OpType::Write(fd)),
                    },
                ]
            },
            Some(OpType::Write(fd)) => seq![
                ActionView::ReportWriteFinished { fd },
                ActionView::SubmitRead { fd, buffer: buffers[fd], user_data: encode(OpType::Read(fd)) },
            ],
            None => seq![],
        }
    }
}

/// Whether the server can handle the completion `(result, user_data)`,
/// whose read bytes are in `received`, with the buffer table `connections`.
pub fn can_handle(connections: &Connection, result: i32, user_data: u64, received: &[u8]) -> (ok:
    bool)
    ensures
        ok == handled(connections@, result, user_data, received@),
{
    if result < 0 {
        result != i32::MIN
    } else {
        match OpType::decode_user_data(user_data) {
            None => false,
            Some(OpType::Accept) => true,
            Some(OpType::Read(fd)) => {
                if result == DISCONNECTED {
                    true
                } else if connections.is_connected(fd) {
                    let n: usize = result as usize;
                    n <= connections.buffer_len(fd) && n <= received.len()
                } else {
                    false
                }
            },
            Some(OpType::Write(fd)) => connections.is_connected(fd),
        }
    }
}

/// Handles the completion `(result, user_data)`: updates the buffer table
/// and returns what the event loop must do next, in order. For a read
/// completion, `received` holds the bytes that the read brought, at its
/// start; other completions ignore it.
pub fn handle_completion(
    connections: &mut Connection,
    listener_fd: i32,
    result: i32,
    user_data: u64,
    received: &[u8],
) -> (actions: Vec<Action>)
    requires
        handled(old(connections)@, result, user_data, received@),
    ensures
        final(connections)@ == buffers_after(old(connections)@, result, user_data, received@),
        actions@.len() == actions_after(
            old(connections)@,
            listener_fd,
            result,
            user_data,
            received@,
        ).len(),
        forall|i: int|
            0 <= i < actions@.len() ==> #[trigger] actions@[i]@ == actions_after(
                old(connections)@,
                listener_fd,
                result,
                user_data,
                received@,
            )[i],
{
    let mut actions: Vec<Action> = Vec::new();
    if result < 0 {
        actions.push(Action::ReportError { errno: -result });
        return actions;
    }
    let op = OpType::from_user_data(user_data);
    match op {
        OpType::Accept => {
            actions.push(
                Action::SubmitAccept {
                    listener_fd,
                    user_data: OpType::Accept.to_user_data(),
                },
            );
            actions.push(Action::ReportAccepted { fd: result });
            connections.accept_new_client(result);
            actions.push(
                Action::SubmitWrite {
                    fd: result,
                    reply: Reply::Greeting,
                    user_data: OpType::Write(result).to_user_data(),
                },
            );
        },
        OpType::Read(fd) => {
            if result == DISCONNECTED {
                actions.push(Action::ReportDisconnected { fd });
                connections.disconnect(fd);
                actions.push(Action::Close { fd });
            } else {
                let n = result as usize;
                let _ = connections.buffer_len(fd);
                connections.store_received(fd, received, n);
                let data = connections.receive_data(fd, n);
                assert(data@ =~= received@.subrange(0, n as int));
                actions.push(Action::ReportReceived { fd, data });
                actions.push(
                    Action::SubmitWrite {
                        fd,
                        reply: Reply::Acknowledgement,
                        user_data: OpType::Write(fd).to_user_data(),
                    },
                );
            }
        },
        OpType::Write(fd) => {
            actions.push(Action::ReportWriteFinished { fd });
            let buffer = connections.get_buffer(fd);
            actions.push(
                Action::SubmitRead { fd, buffer, user_data: OpType::Read(fd).to_user_data() },
            );
        },
    }
    actions
}

/// A client that is accepted and then reads zero bytes leaves no buffer
/// behind: the two completions together remove its file descriptor from
/// the table, whatever was there before.
pub proof fn lemma_accept_then_disconnect(buffers: Map<i32, Seq<u8>>, fd: i32)
    requires
        fd >= 0,
    ensures
        forall|received: Seq<u8>|
            buffers_after(
                #[trigger] buffers_after(buffers, fd, encode(OpType::Accept), received),
                DISCONNECTED,
                encode(OpType::Read(fd)),
                received,
            ) == buffers.remove(fd),
{
    crate::op_type::lemma_decode_encode(OpType::Accept);
    crate::op_type::lemma_decode_encode(OpType::Read(fd));
    assert(buffers.insert(fd, fresh_buffer()).remove(fd) =~= buffers.remove(fd));
}

/// The completions of every submission that the server makes are handled,
/// whatever bytes come with them, as long as the client they concern is
/// registered: a failed completion (any error number), an accept, a write
/// to a registered client, a read that closes, and a read from a
/// registered client of as many bytes as fit its buffer and were received.
pub proof fn lemma_server_completions_are_handled(
    buffers: Map<i32, Seq<u8>>,
    fd: i32,
    result: i32,
    received: Seq<u8>,
)
    ensures
        i32::MIN < result < 0 ==> handled(buffers, result, encode(OpType::Accept), received)
            && handled(buffers, result, encode(OpType::Read(fd)), received) && handled(
            buffers,
            result,
            encode(OpType::Write(fd)),
            received,
        ),
        result >= 0 ==> handled(buffers, result, encode(OpType::Accept), received),
        result >= 0 && buffers.contains_key(fd) ==> handled(
            buffers,
            result,
            encode(OpType::Write(fd)),
            received,
        ),
        result == DISCONNECTED ==> handled(buffers, result, encode(OpType::Read(fd)), received),
        buffers.contains_key(fd) && 0 < result <= buffers[fd].len() && result <= received.len()
            ==> handled(buffers, result, encode(OpType::Read(fd)), received),
{
    crate::op_type::lemma_decode_encode(OpType::Accept);
    crate::op_type::lemma_decode_encode(OpType::Read(fd));
    crate::op_type::lemma_decode_encode(OpType::Write(fd));
}

/// The completions that are refused are exactly those on which the server
/// would fail: an error number that cannot be negated, an unknown operation
/// code, a read of data or a write for an unregistered client, and a read
/// of more bytes than its buffer holds or than were received.
pub proof fn lemma_refused_completions(
    buffers: Map<i32, Seq<u8>>,
    fd: i32,
    result: i32,
    user_data: u64,
    received: Seq<u8>,
)
    ensures
        !handled(buffers, i32::MIN, user_data, received),
        result >= 0 && decode(user_data) is None ==> !handled(buffers, result, user_data, received),
        result >= 0 && !buffers.contains_key(fd) ==> !handled(
            buffers,
            result,
            encode(OpType::Write(fd)),
            received,
        ),
        result > 0 && !buffers.contains_key(fd) ==> !handled(
            buffers,
            result,
            encode(OpType::Read(fd)),
            received,
        ),
        result > 0 && buffers.contains_key(fd) && (result > buffers[fd].len() || result
            > received.len()) ==> !handled(buffers, result, encode(OpType::Read(fd)), received),
{
    crate::op_type::lemma_decode_encode(OpType::Read(fd));
    crate::op_type::lemma_decode_encode(OpType::Write(fd));
}

/// What each kind of completion does to the buffer table: a failure and a
/// write change nothing, an accept gives the new client a fresh buffer, a
/// read that closes forgets the client, and a read of data keeps every other
/// client and the bytes past the read.
pub proof fn lemma_completion_effects(
    buffers: Map<i32, Seq<u8>>,
    fd: i32,
    other: i32,
    result: i32,
    received: Seq<u8>,
)
    ensures
        result < 0 ==> buffers_after(buffers, result, encode(OpType::Read(fd)), received) == buffers,
        result >= 0 ==> buffers_after(buffers, result, encode(OpType::Write(fd)), received)
            == buffers,
        result >= 0 ==> buffers_after(buffers, result, encode(OpType::Accept), received)[result]
            == Seq::new(512, |i: int| 0u8),
        result >= 0 ==> buffers_after(buffers, result, encode(OpType::Accept), received).dom()
            == buffers.dom().insert(result),
        !buffers_after(buffers, DISCONNECTED, encode(OpType::Read(fd)), received).contains_key(fd),
        other != fd ==> buffers_after(buffers, result, encode(OpType::Read(fd)), received).contains_key(other)
            == buffers.contains_key(other),
        handled(buffers, result, encode(OpType::Read(fd)), received) && result > 0 ==> {
            let after = buffers_after(buffers, result, encode(OpType::Read(fd)), received)[fd];
            &&& after.len() == buffers[fd].len()
            &&& forall|i: int|
                result <= i < after.len() ==> #[trigger] after[i] == buffers[fd][i]
        },
{
    crate::op_type::lemma_decode_encode(OpType::Accept);
    crate::op_type::lemma_decode_encode(OpType::Read(fd));
    crate::op_type::lemma_decode_encode(OpType::Write(fd));
    if result >= 0 {
        assert(buffers_after(buffers, result, encode(OpType::Accept), received).dom() =~= buffers.dom().insert(result));
        assert(fresh_buffer() =~= Seq::new(512, |i: int| 0u8));
    }
}

/// An accept completion re-arms the accept, reports the new client and
/// greets it; a read of no byte reports the disconnection and closes the
/// client; a write completion reports it and reads again into the client's
/// buffer. Each submission carries the tag of its operation in the event
/// loop's bit layout.
pub proof fn lemma_completion_actions(
    buffers: Map<i32, Seq<u8>>,
    listener_fd: i32,
    fd: i32,
    result: i32,
    received: Seq<u8>,
)
    requires
        result >= 0,
    ensures
        actions_after(buffers, listener_fd, result, encode(OpType::Accept), received) == seq![
            ActionView::SubmitAccept { listener_fd, user_data: 1u64 << 32u64 },
            ActionView::ReportAccepted { fd: result },
            ActionView::SubmitWrite {
                fd: result,
                reply: Reply::Greeting,
                user_data: (3u64 << 32u64) | (result as u32 as u64),
            },
        ],
        actions_after(buffers, listener_fd, DISCONNECTED, encode(OpType::Read(fd)), received)
            == seq![ActionView::ReportDisconnected { fd }, ActionView::Close { fd }],
        actions_after(buffers, listener_fd, result, encode(OpType::Write(fd)), received) == seq![
            ActionView::ReportWriteFinished { fd },
            ActionView::SubmitRead {
                fd,
                buffer: buffers[fd],
                user_data: (2u64 << 32u64) | (fd as u32 as u64),
            },
        ],
{
    crate::op_type::lemma_decode_encode(OpType::Accept);
    crate::op_type::lemma_decode_encode(OpType::Read(fd));
    crate::op_type::lemma_decode_encode(OpType::Write(fd));
    crate::op_type::lemma_encode_layout(fd);
    crate::op_type::lemma_encode_layout(result);
}

/// A read completion that brings data reports exactly the bytes the read
/// brought, and the client's buffer then starts with them: what is read
/// from a client is what the server reports and keeps.
pub proof fn lemma_read_reports_received(
    buffers: Map<i32, Seq<u8>>,
    listener_fd: i32,
    fd: i32,
    result: i32,
    received: Seq<u8>,
)
    requires
        result > 0,
        handled(buffers, result, encode(OpType::Read(fd)), received),
    ensures
        actions_after(buffers, listener_fd, result, encode(OpType::Read(fd)), received)[0] == (
        ActionView::ReportReceived { fd, data: received.subrange(0, result as int) }),
        buffers_after(buffers, result, encode(OpType::Read(fd)), received)[fd].subrange(
            0,
            result as int,
        ) == received.subrange(0, result as int),
{
    crate::op_type::lemma_decode_encode(OpType::Read(fd));
    let data = received.subrange(0, result as int);
    assert(filled(buffers[fd], data).subrange(0, result as int) =~= data);
}

/// A write completion for a registered client leads to a read into that
/// client's buffer, tagged so that its completion is seen as a read from
/// the same client; the table does not change.
pub proof fn lemma_write_then_read(
    buffers: Map<i32, Seq<u8>>,
    listener_fd: i32,
    fd: i32,
    result: i32,
    received: Seq<u8>,
)
    requires
        buffers.contains_key(fd),
        result >= 0,
    ensures
        buffers_after(buffers, result, encode(OpType::Write(fd)), received) == buffers,
        actions_after(buffers, listener_fd, result, encode(OpType::Write(fd)), received)[1] == (
        ActionView::SubmitRead { fd, buffer: buffers[fd], user_data: encode(OpType::Read(fd)) }),
        decode(encode(OpType::Read(fd))) == Some(OpType::Read(fd)),
{
    crate::op_type::lemma_decode_encode(OpType::Write(fd));
    crate::op_type::lemma_decode_encode(OpType::Read(fd));
}

} // verus!
