use rut_io_example::op_type::OpType;
use rut_io_example::uring_server::{can_handle, handle_completion, reply_text, Action, Reply};
use rut_io_example::uring_socket::{Connection, BUFFER_SIZE};

#[test]
fn new_table_is_empty() {
    let conn = Connection::new();
    assert!(!conn.is_connected(3));
}

#[test]
fn accepted_client_gets_zeroed_buffer() {
    let mut conn = Connection::new();
    conn.accept_new_client(4);
    assert!(conn.is_connected(4));
    assert_eq!(conn.get_buffer(4), vec![0u8; 512]);
    assert_eq!(conn.buffer_len(4), BUFFER_SIZE);
}

#[test]
fn disconnect_forgets_only_that_client() {
    let mut conn = Connection::new();
    conn.accept_new_client(4);
    conn.accept_new_client(5);
    conn.disconnect(4);
    assert!(!conn.is_connected(4));
    assert!(conn.is_connected(5));
    conn.disconnect(99);
    assert!(conn.is_connected(5));
}

#[test]
fn stored_bytes_are_read_back() {
    let mut conn = Connection::new();
    conn.accept_new_client(6);
    conn.store_received(6, b"hello world", 5);
    assert_eq!(conn.receive_data(6, 5), b"hello".to_vec());
    assert_eq!(conn.receive_data(6, 7), b"hello\0\0".to_vec());
    let buffer = conn.get_buffer(6);
    assert_eq!(buffer.len(), 512);
    assert_eq!(&buffer[..5], b"hello");
    assert!(buffer[5..].iter().all(|b| *b == 0));
    conn.store_received(6, b"HE", 2);
    assert_eq!(conn.receive_data(6, 5), b"HEllo".to_vec());
    assert_eq!(conn.receive_data(6, 0), Vec::<u8>::new());
}

#[test]
fn reply_texts() {
    assert_eq!(reply_text(Reply::Greeting), "Hello from io-uring server !\n");
    assert_eq!(reply_text(Reply::Acknowledgement), "io_uring server received your message !\n");
}

#[test]
fn failed_completion_reports_errno() {
    let mut conn = Connection::new();
    assert!(can_handle(&conn, -11, 0, &[]));
    let actions = handle_completion(&mut conn, 3, -11, 0, &[]);
    assert_eq!(actions.len(), 1);
    assert!(matches!(actions[0], Action::ReportError { errno: 11 }));
    assert!(!can_handle(&conn, i32::MIN, 0, &[]));
}

#[test]
fn accept_completion_registers_and_greets() {
    let mut conn = Connection::new();
    let ud = u64::from(OpType::Accept);
    let actions = handle_completion(&mut conn, 3, 7, ud, &[]);
    assert!(conn.is_connected(7));
    assert_eq!(actions.len(), 3);
    assert!(matches!(actions[0], Action::SubmitAccept { listener_fd: 3, user_data } if user_data == 1u64 << 32));
    assert!(matches!(actions[1], Action::ReportAccepted { fd: 7 }));
    assert!(matches!(actions[2], Action::SubmitWrite { fd: 7, reply: Reply::Greeting, user_data } if user_data == (3u64 << 32) | 7));
}

#[test]
fn read_completion_reports_what_was_read() {
    let mut conn = Connection::new();
    conn.accept_new_client(7);
    let ud = u64::from(OpType::Read(7));
    let mut kernel_buffer = conn.get_buffer(7);
    kernel_buffer[..5].copy_from_slice(b"ping\n");
    assert!(can_handle(&conn, 5, ud, &kernel_buffer));
    let actions = handle_completion(&mut conn, 3, 5, ud, &kernel_buffer);
    assert!(conn.is_connected(7));
    assert_eq!(actions.len(), 2);
    match &actions[0] {
        Action::ReportReceived { fd, data } => {
            assert_eq!(*fd, 7);
            assert_eq!(data, &b"ping\n".to_vec());
        }
        other => panic!("unexpected {other:?}"),
    }
    assert!(matches!(actions[1], Action::SubmitWrite { fd: 7, reply: Reply::Acknowledgement, user_data } if user_data == (3u64 << 32) | 7));
    assert_eq!(&conn.get_buffer(7)[..5], b"ping\n");
}

#[test]
fn read_completion_of_zero_disconnects_and_closes() {
    let mut conn = Connection::new();
    conn.accept_new_client(7);
    let actions = handle_completion(&mut conn, 3, 0, u64::from(OpType::Read(7)), &[]);
    assert!(!conn.is_connected(7));
    assert_eq!(actions.len(), 2);
    assert!(matches!(actions[0], Action::ReportDisconnected { fd: 7 }));
    assert!(matches!(actions[1], Action::Close { fd: 7 }));
}

#[test]
fn write_completion_resubmits_read() {
    let mut conn = Connection::new();
    conn.accept_new_client(8);
    let actions = handle_completion(&mut conn, 3, 40, u64::from(OpType::Write(8)), &[]);
    assert_eq!(actions.len(), 2);
    assert!(matches!(actions[0], Action::ReportWriteFinished { fd: 8 }));
    match &actions[1] {
        Action::SubmitRead { fd, buffer, user_data } => {
            assert_eq!(*fd, 8);
            assert_eq!(buffer, &vec![0u8; 512]);
            assert_eq!(*user_data, (2u64 << 32) | 8);
        }
        other => panic!("unexpected {other:?}"),
    }
}

#[test]
fn completions_that_would_fail_are_detected() {
    let conn = Connection::new();
    let bytes = [1u8; 600];
    assert!(!can_handle(&conn, 0, 9u64 << 32, &[]));
    assert!(!can_handle(&conn, 4, u64::from(OpType::Read(7)), &bytes));
    assert!(can_handle(&conn, 0, u64::from(OpType::Read(7)), &[]));
    assert!(!can_handle(&conn, 4, u64::from(OpType::Write(7)), &[]));
    assert!(can_handle(&conn, 4, u64::from(OpType::Accept), &[]));
    let mut conn = Connection::new();
    conn.accept_new_client(7);
    assert!(!can_handle(&conn, 513, u64::from(OpType::Read(7)), &bytes));
    assert!(can_handle(&conn, 512, u64::from(OpType::Read(7)), &bytes));
    assert!(!can_handle(&conn, 4, u64::from(OpType::Read(7)), &bytes[..3]));
}

#[test]
fn accept_then_disconnect_leaves_no_buffer() {
    let mut conn = Connection::new();
    conn.accept_new_client(1);
    handle_completion(&mut conn, 3, 9, u64::from(OpType::Accept), &[]);
    handle_completion(&mut conn, 3, 0, u64::from(OpType::Read(9)), &[]);
    assert!(!conn.is_connected(9));
    assert!(conn.is_connected(1));
}
