use rut_io_example::events::{epoll_after_serving, kevent_ident, kqueue_after_serving, kqueue_watch, EpollChange, EpollFlags, KqueueChange};
use rut_io_example::io_outcome::IoOutcome;
use rut_io_example::poll_set::{create_pool_fd, settle_client};
use rut_io_example::poll_socket;
use rut_io_example::vfs::{after_greeting, ConnectionStatus};

#[test]
fn greeting_outcomes() {
    assert_eq!(after_greeting::<&str>(5, IoOutcome::Done(10)), Ok(5));
    assert_eq!(after_greeting::<&str>(5, IoOutcome::Done(0)), Ok(5));
    assert_eq!(after_greeting(5, IoOutcome::WouldBlock("again")), Err("again"));
    assert_eq!(after_greeting(5, IoOutcome::Failed("pipe")), Err("pipe"));
}

#[test]
fn established_client_stays_watched() {
    let mut fds = vec![create_pool_fd(3), create_pool_fd(4)];
    let close = settle_client::<()>(&mut fds, 4, &Ok(ConnectionStatus::Established));
    assert!(!close);
    assert_eq!(fds, vec![create_pool_fd(3), create_pool_fd(4)]);
}

#[test]
fn closed_or_failed_client_is_unwatched() {
    let mut fds = vec![create_pool_fd(3), create_pool_fd(4), create_pool_fd(5)];
    assert!(settle_client::<()>(&mut fds, 4, &Ok(ConnectionStatus::Closed)));
    assert_eq!(fds, vec![create_pool_fd(3), create_pool_fd(5)]);
    assert!(settle_client(&mut fds, 5, &Err("reset")));
    assert_eq!(fds, vec![create_pool_fd(3)]);
}

#[test]
fn epoll_unwatches_closed_clients_only() {
    let flags = EpollFlags { epollin: 1, epollet: i32::MIN, ctl_add: 1, ctl_del: 2 };
    assert_eq!(
        epoll_after_serving(flags, 9, Some(poll_socket::ConnectionStatus::Closed)),
        Some(EpollChange { op: 2, fd: 9, event: None })
    );
    assert_eq!(epoll_after_serving(flags, 9, Some(poll_socket::ConnectionStatus::Established)), None);
    assert_eq!(epoll_after_serving(flags, 9, None), None);
}

#[test]
fn kqueue_changes() {
    assert_eq!(kqueue_watch(6), KqueueChange::AddRead { ident: 6 });
    assert_eq!(
        kqueue_after_serving(6, Some(poll_socket::ConnectionStatus::Closed)),
        Some(KqueueChange::DeleteRead { ident: 6 })
    );
    assert_eq!(kqueue_after_serving(6, None), None);
    assert_eq!(kqueue_after_serving(6, Some(poll_socket::ConnectionStatus::Established)), None);
    assert_eq!(kevent_ident(-1), usize::MAX);
}
