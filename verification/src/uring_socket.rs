//! The io_uring server's table of read buffers, one per connected client.
use std::collections::HashMap;
use vstd::prelude::*;

verus! {

/// Length of the read buffer that each client gets.
pub const BUFFER_SIZE: usize = 512;

/// The buffer that a newly accepted client gets: `BUFFER_SIZE` zero bytes.
pub open spec fn fresh_buffer() -> Seq<u8> {
    Seq::new(BUFFER_SIZE as nat, |i: int| 0u8)
}

/// The buffer `buffer` after a read wrote `data` at its start: the bytes
/// past the read keep their value.
pub open spec fn filled(buffer: Seq<u8>, data: Seq<u8>) -> Seq<u8> {
    data + buffer.subrange(data.len() as int, buffer.len() as int)
}

/// The read buffers of the connected clients, keyed by file descriptor.
pub struct Connection {
    buffers: HashMap<i32, Vec<u8>>,
}

impl View for Connection {
    type V = Map<i32, Seq<u8>>;

    closed spec fn view(&self) -> Map<i32, Seq<u8>> {
        Map::new(|fd: i32| self.buffers@.contains_key(fd), |fd: i32| self.buffers@[fd]@)
    }
}

impl Connection {
    /// Every registered client's buffer is `BUFFER_SIZE` bytes long.
    #[verifier::type_invariant]
    closed spec fn buffers_have_buffer_size(self) -> bool {
        forall|fd: i32| #[trigger]
            self.buffers@.contains_key(fd) ==> self.buffers@[fd]@.len() == BUFFER_SIZE
    }

    /// An empty table.
    pub fn new() -> (conn: Self)
        ensures
            conn@ == Map::<i32, Seq<u8>>::empty(),
    {
        let conn = Connection { buffers: HashMap::new() };
        assert(conn@ =~= Map::<i32, Seq<u8>>::empty());
        conn
    }

    /// Forgets the buffer of `fd`.
    pub fn disconnect(&mut self, fd: i32)
        ensures
            final(self)@ == old(self)@.remove(fd),
    {
        proof {
            use_type_invariant(&*self);
        }
        let mut buffers: HashMap<i32, Vec<u8>> = HashMap::new();
        std::mem::swap(&mut buffers, &mut self.buffers);
        buffers.remove(&fd);
        self.buffers = buffers;
        assert(self@ =~= old(self)@.remove(fd));
    }

    /// A copy of the buffer of `fd`, which must be registered.
    pub fn get_buffer(&self, fd: i32) -> (buffer: Vec<u8>)
        requires
            self@.contains_key(fd),
        ensures
            buffer@ == self@[fd],
            buffer@.len() == BUFFER_SIZE,
    {
        proof {
            use_type_invariant(self);
        }
        let stored = self.buffers.get(&fd).unwrap();
        let buffer = stored.clone();
        assert(buffer@ =~= stored@);
        buffer
    }

    /// Gives `fd` a fresh buffer.
    pub fn accept_new_client(&mut self, fd: i32)
        ensures
            final(self)@ == old(self)@.insert(fd, fresh_buffer()),
    {
        proof {
            use_type_invariant(&*self);
        }
        let buffer: Vec<u8> = vec![0u8; BUFFER_SIZE];
        assert(buffer@ =~= fresh_buffer());
        let mut buffers: HashMap<i32, Vec<u8>> = HashMap::new();
        std::mem::swap(&mut buffers, &mut self.buffers);
        buffers.insert(fd, buffer);
        self.buffers = buffers;
        assert(self@ =~= old(self)@.insert(fd, fresh_buffer()));
    }

    /// Records that a read from `fd` wrote the first `n` bytes of `data` at
    /// the start of its buffer; `fd` must be registered and `n` fit both.
    pub fn store_received(&mut self, fd: i32, data: &[u8], n: usize)
        requires
            old(self)@.contains_key(fd),
            n <= data@.len(),
            n <= BUFFER_SIZE,
        ensures
            final(self)@ == old(self)@.insert(
                fd,
                filled(old(self)@[fd], data@.subrange(0, n as int)),
            ),
    {
        proof {
            use_type_invariant(&*self);
        }
        let mut buffers: HashMap<i32, Vec<u8>> = HashMap::new();
        std::mem::swap(&mut buffers, &mut self.buffers);
        let old_buffer = buffers.remove(&fd).unwrap();
        let mut buffer: Vec<u8> = Vec::new();
        let mut i: usize = 0;
        while i < BUFFER_SIZE
            invariant
                old_buffer@.len() == BUFFER_SIZE,
                n <= data@.len(),
                n <= BUFFER_SIZE,
                i <= BUFFER_SIZE,
                buffer@ == filled(old_buffer@, data@.subrange(0, n as int)).take(i as int),
            decreases BUFFER_SIZE - i,
        {
            let byte = if i < n {
                data[i]
            } else {
                old_buffer[i]
            };
            buffer.push(byte);
            i = i + 1;
            assert(buffer@ =~= filled(old_buffer@, data@.subrange(0, n as int)).take(i as int));
        }
        assert(buffer@ =~= filled(old_buffer@, data@.subrange(0, n as int)));
        buffers.insert(fd, buffer);
        self.buffers = buffers;
        assert(self@ =~= old(self)@.insert(fd, filled(old(self)@[fd], data@.subrange(0, n as int))));
    }

    /// The first `n` bytes of the buffer of `fd`: the data that a read
    /// completion of `n` bytes reports for it.
    pub fn receive_data(&mut self, fd: i32, n: usize) -> (received: Vec<u8>)
        requires
            old(self)@.contains_key(fd),
            n <= old(self)@[fd].len(),
        ensures
            final(self)@ == old(self)@,
            received@ == old(self)@[fd].subrange(0, n as int),
    {
        let stored = self.buffers.get(&fd).unwrap();
        let mut received: Vec<u8> = Vec::new();
        let mut i: usize = 0;
        while i < n
            invariant
                n <= stored@.len(),
                i <= n,
                received@ == stored@.subrange(0, i as int),
            decreases n - i,
        {
            received.push(stored[i]);
            i = i + 1;
            assert(received@ =~= stored@.subrange(0, i as int));
        }
        received
    }

    /// The length of the buffer of `fd`, which must be registered.
    pub fn buffer_len(&self, fd: i32) -> (len: usize)
        requires
            self@.contains_key(fd),
        ensures
            len == self@[fd].len(),
            len == BUFFER_SIZE,
    {
        proof {
            use_type_invariant(self);
        }
        self.buffers.get(&fd).unwrap().len()
    }

    /// Whether `fd` has a buffer.
    pub fn is_connected(&self, fd: i32) -> (connected: bool)
        ensures
            connected == self@.contains_key(fd),
    {
        self.buffers.contains_key(&fd)
    }
}

} // verus!
