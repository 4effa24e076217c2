use rut_io_example::blocking_socket::{self, Connection as BlockingConnection};
use rut_io_example::io_outcome::{byte_count, IoOutcome};
use rut_io_example::poll_socket::{self, Connection as PollConnection};
use rut_io_example::vfs::{self, AfterRead, ConnectionStatus};

#[test]
fn read_of_zero_closes() {
    assert!(matches!(vfs::after_read::<&str>(IoOutcome::Done(0)), AfterRead::Finish(Ok(ConnectionStatus::Closed))));
}

#[test]
fn read_of_data_responds() {
    assert!(matches!(vfs::after_read::<&str>(IoOutcome::Done(12)), AfterRead::Respond(12)));
}

#[test]
fn read_not_ready_stays_established() {
    assert!(matches!(vfs::after_read(IoOutcome::WouldBlock("again")), AfterRead::Finish(Ok(ConnectionStatus::Established))));
}

#[test]
fn read_failure_is_returned() {
    assert!(matches!(vfs::after_read(IoOutcome::Failed("reset")), AfterRead::Finish(Err("reset"))));
}

#[test]
fn vfs_reply_outcomes() {
    assert_eq!(vfs::after_reply::<&str>(IoOutcome::Done(3)), Ok(ConnectionStatus::Established));
    assert_eq!(vfs::after_reply(IoOutcome::WouldBlock("again")), Err("again"));
    assert_eq!(vfs::after_reply(IoOutcome::Failed("pipe")), Err("pipe"));
}

#[test]
fn byte_count_of_syscall_results() {
    assert_eq!(byte_count(0), Some(0));
    assert_eq!(byte_count(17), Some(17));
    assert_eq!(byte_count(-1), None);
    assert_eq!(byte_count(isize::MIN), None);
}

#[test]
fn received_data_only_for_positive_counts() {
    assert!(IoOutcome::<()>::Done(1).received_data());
    assert!(!IoOutcome::<()>::Done(0).received_data());
    assert!(!IoOutcome::WouldBlock(()).received_data());
    assert!(!IoOutcome::Failed(()).received_data());
}

#[test]
fn blocking_accept_keeps_greeted_clients_only() {
    let mut conn = BlockingConnection::new();
    assert_eq!(conn.accept_new_client(10, Ok::<(), &str>(())), Ok(()));
    assert_eq!(conn.accept_new_client(11, Err("refused")), Err("refused"));
    assert_eq!(conn.len(), 1);
    assert_eq!(*conn.client_mut(0), 10);
}

#[test]
fn blocking_sweep_swaps_out_finished_clients() {
    let mut conn = BlockingConnection::new();
    for fd in [1, 2, 3, 4] {
        conn.accept_new_client(fd, Ok::<(), ()>(())).unwrap();
    }
    // client 1 stays, client 2 closes, client 4 (moved in its place) fails, 3 stays
    let mut index = 0;
    let (next, removed) = conn.settle::<()>(index, Ok(blocking_socket::ConnectionStatus::Established));
    assert_eq!((next, removed), (1, None));
    index = next;
    let (next, removed) = conn.settle::<()>(index, Ok(blocking_socket::ConnectionStatus::Closed));
    assert_eq!((next, removed), (1, Some(2)));
    index = next;
    assert_eq!(*conn.client_mut(1), 4);
    let (next, removed) = conn.settle(index, Err(()));
    assert_eq!((next, removed), (1, Some(4)));
    index = next;
    assert_eq!(*conn.client_mut(1), 3);
    let (next, removed) = conn.settle::<()>(index, Ok(blocking_socket::ConnectionStatus::Established));
    assert_eq!((next, removed), (2, None));
    assert_eq!(conn.len(), 2);
    assert_eq!(*conn.client_mut(0), 1);
    assert_eq!(*conn.client_mut(1), 3);
}

#[test]
fn blocking_full_pass_keeps_exactly_established_clients() {
    let mut conn = BlockingConnection::new();
    for fd in [10, 11, 12, 13, 14] {
        conn.accept_new_client(fd, Ok::<(), ()>(())).unwrap();
    }
    // Outcome of each client by file descriptor: 11 and 14 close.
    let stays = |fd: i32| fd != 11 && fd != 14;
    let mut served = Vec::new();
    let mut closed = Vec::new();
    let mut index = 0;
    while index < conn.len() {
        let fd = *conn.client_mut(index);
        served.push(fd);
        let status = if stays(fd) {
            Ok::<_, ()>(blocking_socket::ConnectionStatus::Established)
        } else {
            Ok(blocking_socket::ConnectionStatus::Closed)
        };
        let (next, removed) = conn.settle(index, status);
        if let Some(fd) = removed {
            closed.push(fd);
        }
        index = next;
    }
    served.sort();
    assert_eq!(served, vec![10, 11, 12, 13, 14]);
    closed.sort();
    assert_eq!(closed, vec![11, 14]);
    let mut left: Vec<i32> = (0..conn.len()).map(|i| *conn.client_mut(i)).collect();
    left.sort();
    assert_eq!(left, vec![10, 12, 13]);
}

#[test]
fn blocking_removing_last_client() {
    let mut conn = BlockingConnection::new();
    conn.accept_new_client(5, Ok::<(), ()>(())).unwrap();
    assert_eq!(conn.settle::<()>(0, Ok(blocking_socket::ConnectionStatus::Closed)), (0, Some(5)));
    assert_eq!(conn.len(), 0);
}

#[test]
fn blocking_read_and_reply_rules() {
    assert!(matches!(blocking_socket::after_read::<()>(IoOutcome::Done(0)), blocking_socket::AfterRead::Finish(Ok(blocking_socket::ConnectionStatus::Closed))));
    assert!(matches!(blocking_socket::after_read::<()>(IoOutcome::Done(3)), blocking_socket::AfterRead::Respond(3)));
    assert!(matches!(blocking_socket::after_read(IoOutcome::WouldBlock(())), blocking_socket::AfterRead::Finish(Ok(blocking_socket::ConnectionStatus::Established))));
    assert!(matches!(blocking_socket::after_read(IoOutcome::Failed(7)), blocking_socket::AfterRead::Finish(Err(7))));
    assert_eq!(blocking_socket::after_reply(IoOutcome::WouldBlock(1)), Ok(blocking_socket::ConnectionStatus::Established));
    assert_eq!(blocking_socket::after_reply::<i32>(IoOutcome::Done(0)), Ok(blocking_socket::ConnectionStatus::Established));
    assert_eq!(blocking_socket::after_reply(IoOutcome::Failed(1)), Err(1));
    assert_eq!(blocking_socket::send_message_result(IoOutcome::WouldBlock(1)), Ok(()));
    assert_eq!(blocking_socket::send_message_result(IoOutcome::Failed(2)), Err(2));
}

#[test]
fn poll_registry_unknown_fd_gives_none() {
    let mut conn: PollConnection<&str> = PollConnection::new();
    assert_eq!(conn.take_client(3), None);
    assert!(!conn.contains(3));
}

#[test]
fn poll_registry_serving_statuses() {
    let mut conn: PollConnection<&str> = PollConnection::new();
    conn.accept_new_client(3, "a");
    conn.accept_new_client(4, "b");
    conn.accept_new_client(5, "c");
    conn.accept_new_client(6, "d");

    let s = conn.take_client(3).unwrap();
    assert_eq!(s, "a");
    assert_eq!(conn.receive_data_and_respond::<()>(3, s, IoOutcome::Done(8)), (Some(poll_socket::ConnectionStatus::Established), None));
    assert!(conn.contains(3));

    let s = conn.take_client(4).unwrap();
    assert_eq!(conn.receive_data_and_respond::<()>(4, s, IoOutcome::Done(0)), (Some(poll_socket::ConnectionStatus::Closed), Some("b")));
    assert!(!conn.contains(4));

    let s = conn.take_client(5).unwrap();
    assert_eq!(conn.receive_data_and_respond(5, s, IoOutcome::WouldBlock(())), (None, None));
    assert!(conn.contains(5));

    let s = conn.take_client(6).unwrap();
    assert_eq!(conn.receive_data_and_respond(6, s, IoOutcome::Failed(())), (Some(poll_socket::ConnectionStatus::Closed), Some("d")));
    assert!(!conn.contains(6));
    assert_eq!(conn.take_client(5), Some("c"));
}
