pub mod io_outcome;
pub mod op_type;
pub mod uring_server;
pub mod uring_socket;
pub mod vfs;
pub mod blocking_socket;
pub mod poll_socket;
pub mod poll_set;
pub mod events;
pub mod messages;
pub mod accept;
