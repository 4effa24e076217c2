use rut_io_example::events::{classify, classify_kevent, event_data, event_fd, kevent_fd, kevent_ident, unwatch, watch, EpollEvent, EpollFlags, EventSource};
use rut_io_example::messages::{end_line, hello_line, numbered_line, start_line};
use rut_io_example::poll_set::{create_pool_fd, readable, register_pollfd, remove_fd, PollFd};

#[test]
fn event_data_roundtrip() {
    for fd in [0, 1, 3, 1024, i32::MAX, -1, i32::MIN] {
        assert_eq!(event_fd(event_data(fd)), fd);
        assert_eq!(kevent_fd(kevent_ident(fd)), fd);
    }
    assert_eq!(event_data(5), 5u64);
    assert_eq!(event_data(-1), u64::MAX);
    assert_eq!(event_fd(0x1_0000_0007), 7);
}

#[test]
fn classify_events() {
    assert_eq!(classify(3, 3), EventSource::Listener);
    assert_eq!(classify(5, 3), EventSource::Client(5));
    assert_eq!(classify_kevent(3, 3), EventSource::Listener);
    assert_eq!(classify_kevent(9, 3), EventSource::Client(9));
}

#[test]
fn epoll_changes() {
    let flags = EpollFlags {
        epollin: libc::EPOLLIN,
        epollet: libc::EPOLLET,
        ctl_add: libc::EPOLL_CTL_ADD,
        ctl_del: libc::EPOLL_CTL_DEL,
    };
    let w = watch(flags, 7);
    assert_eq!(w.op, 1);
    assert_eq!(w.fd, 7);
    assert_eq!(w.event, Some(EpollEvent { events: 0x8000_0001, data: 7 }));
    let u = unwatch(flags, 7);
    assert_eq!((u.op, u.fd, u.event), (2, 7, None));
}

#[test]
fn pollfd_creation_and_registration() {
    assert_eq!(create_pool_fd(4), PollFd { fd: 4, events: 1, revents: 0 });
    let mut fds = vec![create_pool_fd(3)];
    register_pollfd(&mut fds, 9, 1);
    assert_eq!(fds, vec![PollFd { fd: 3, events: 1, revents: 0 }, PollFd { fd: 9, events: 1, revents: 0 }]);
}

#[test]
fn readable_keeps_entries_with_pollin() {
    let fds = vec![
        PollFd { fd: 3, events: 1, revents: 0 },
        PollFd { fd: 4, events: 1, revents: 1 },
        PollFd { fd: 5, events: 1, revents: 0x11 },
        PollFd { fd: 6, events: 1, revents: 0x10 },
    ];
    let ready: Vec<i32> = readable(&fds).iter().map(|p| p.fd).collect();
    assert_eq!(ready, vec![4, 5]);
}

#[test]
fn remove_fd_keeps_others_in_order() {
    let mut fds = vec![create_pool_fd(3), create_pool_fd(4), create_pool_fd(5), create_pool_fd(4)];
    remove_fd(&mut fds, 4);
    assert_eq!(fds, vec![create_pool_fd(3), create_pool_fd(5)]);
    remove_fd(&mut fds, 42);
    assert_eq!(fds.len(), 2);
}

#[test]
fn numbered_lines() {
    assert_eq!(hello_line(1), b"Hello You1\n".to_vec());
    assert_eq!(start_line(10), b"start 10\n".to_vec());
    assert_eq!(end_line(305), b"end 305\n".to_vec());
    assert_eq!(numbered_line("x", 0), b"x0\n".to_vec());
    assert_eq!(numbered_line("", -42), b"-42\n".to_vec());
    assert_eq!(numbered_line("n=", i32::MIN), format!("n={}\n", i32::MIN).into_bytes());
    assert_eq!(numbered_line("n=", i32::MAX), format!("n={}\n", i32::MAX).into_bytes());
}
