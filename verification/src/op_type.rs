//! The operation tag that the io_uring server stores in the user data of
//! every submission: the operation code in the high 32 bits and the file
//! descriptor it concerns in the low 32 bits.
use vstd::prelude::*;

verus! {

/// Result of a read completion that means the peer closed the connection.
pub const DISCONNECTED: i32 = 0;

/// Operation code of an accept submission.
pub const OPERATION_ACCEPT: i32 = 1;

/// Operation code of a read submission.
pub const OPERATION_READ: i32 = 2;

/// Operation code of a write submission.
pub const OPERATION_WRITE: i32 = 3;

/// What a submission was for, and on which file descriptor.
#[derive(Clone, Copy, Debug, PartialEq, Eq, Structural)]
pub enum OpType {
    Accept,
    Read(i32),
    Write(i32),
}

/// 2^32, the weight of the operation code in the user data.
pub open spec fn word() -> int {
    0x1_0000_0000
}

/// The 32 low bits of a file descriptor read as an unsigned number
/// (two's complement).
pub open spec fn fd_word(fd: i32) -> int {
    if fd >= 0 {
        fd as int
    } else {
        fd + word()
    }
}

/// The file descriptor whose two's complement bits are the unsigned
/// 32-bit number `w`.
pub open spec fn word_fd(w: int) -> int {
    if w < 0x8000_0000 {
        w
    } else {
        w - word()
    }
}

/// The operation code of an operation.
pub open spec fn op_code(op: OpType) -> int {
    match op {
        OpType::Accept => OPERATION_ACCEPT as int,
        OpType::Read(_) => OPERATION_READ as int,
        OpType::Write(_) => OPERATION_WRITE as int,
    }
}

/// The user data that tags a submission of `op`.
pub open spec fn encode(op: OpType) -> u64 {
    match op {
        OpType::Accept => (op_code(op) * word()) as u64,
        OpType::Read(fd) => (op_code(op) * word() + fd_word(fd)) as u64,
        OpType::Write(fd) => (op_code(op) * word() + fd_word(fd)) as u64,
    }
}

/// The operation that the user data `value` tags, if its operation code
/// is one of the three known ones.
pub open spec fn decode(value: u64) -> Option<OpType> {
    let code = value as int / word();
    let fd = word_fd(value as int % word()) as i32;
    if code == OPERATION_ACCEPT {
        Some(OpType::Accept)
    } else if code == OPERATION_READ {
        Some(OpType::Read(fd))
    } else if code == OPERATION_WRITE {
        Some(OpType::Write(fd))
    } else {
        None
    }
}

proof fn lemma_low_bits(fd: i32)
    ensures
        (fd as u32) as int == fd_word(fd),
{
    assert((fd as u32) as int == if fd >= 0 { fd as int } else { fd as int + 0x1_0000_0000 })
        by (bit_vector);
}

impl OpType {
    /// The user data that tags a submission of this operation.
    pub fn to_user_data(self) -> (value: u64)
        ensures
            value == encode(self),
    {
        match self {
            OpType::Accept => {
                assert(1u64 << 32u64 == 0x1_0000_0000u64) by (bit_vector);
                1u64 << 32
            },
            OpType::Read(fd) => {
                let low: u64 = fd as u32 as u64;
                proof {
                    lemma_low_bits(fd);
                    assert((2u64 << 32u64) | low == 2 * 0x1_0000_0000u64 + low) by (bit_vector)
                        requires
                            low < 0x1_0000_0000u64,
                    ;
                }
                (2u64 << 32) | low
            },
            OpType::Write(fd) => {
                let low: u64 = fd as u32 as u64;
                proof {
                    lemma_low_bits(fd);
                    assert((3u64 << 32u64) | low == 3 * 0x1_0000_0000u64 + low) by (bit_vector)
                        requires
                            low < 0x1_0000_0000u64,
                    ;
                }
                (3u64 << 32) | low
            },
        }
    }

    /// The operation that `value` tags, or `None` where its operation code is
    /// none of the three known ones.
    pub fn decode_user_data(value: u64) -> (op: Option<OpType>)
        ensures
            op == decode(value),
    {
        let fd: i32 = (value & 0xFFFF_FFFF) as i32;
        let operation: i32 = (value >> 32) as i32;
        proof {
            assert(((value & 0xFFFF_FFFFu64) as i32) as int == if value % 0x1_0000_0000u64
                < 0x8000_0000u64 {
                (value % 0x1_0000_0000u64) as int
            } else {
                (value % 0x1_0000_0000u64) as int - 0x1_0000_0000
            }) by (bit_vector);
            assert(((value >> 32u64) as i32 == 1i32) == (value / 0x1_0000_0000u64 == 1u64))
                by (bit_vector);
            assert(((value >> 32u64) as i32 == 2i32) == (value / 0x1_0000_0000u64 == 2u64))
                by (bit_vector);
            assert(((value >> 32u64) as i32 == 3i32) == (value / 0x1_0000_0000u64 == 3u64))
                by (bit_vector);
        }
        if operation == OPERATION_ACCEPT {
            Some(OpType::Accept)
        } else if operation == OPERATION_READ {
            Some(OpType::Read(fd))
        } else if operation == OPERATION_WRITE {
            Some(OpType::Write(fd))
        } else {
            None
        }
    }

    /// The operation that `value` tags; `value` must carry one of the three
    /// known operation codes.
    pub fn from_user_data(value: u64) -> (op: OpType)
        requires
            decode(value) is Some,
        ensures
            decode(value) == Some(op),
    {
        match Self::decode_user_data(value) {
            Some(op) => op,
            None => OpType::Accept,
        }
    }
}

impl From<OpType> for u64 {
    fn from(value: OpType) -> (data: u64) {
        value.to_user_data()
    }
}

impl vstd::std_specs::convert::FromSpecImpl<OpType> for u64 {
    open spec fn obeys_from_spec() -> bool {
        true
    }

    open spec fn from_spec(v: OpType) -> u64 {
        encode(v)
    }
}

/// The layout of the user data, in the bit operations of the event loop: the
/// operation code shifted into the high 32 bits, or-ed with the file
/// descriptor's 32 bits (`(code << 32) | (fd as u32 as u64)`).
pub proof fn lemma_encode_layout(fd: i32)
    ensures
        encode(OpType::Accept) == 1u64 << 32u64,
        encode(OpType::Read(fd)) == (2u64 << 32u64) | (fd as u32 as u64),
        encode(OpType::Write(fd)) == (3u64 << 32u64) | (fd as u32 as u64),
{
    lemma_low_bits(fd);
    let low: u64 = fd as u32 as u64;
    assert(1u64 << 32u64 == 0x1_0000_0000u64) by (bit_vector);
    assert((2u64 << 32u64) | low == 2 * 0x1_0000_0000u64 + low) by (bit_vector)
        requires
            low < 0x1_0000_0000u64,
    ;
    assert((3u64 << 32u64) | low == 3 * 0x1_0000_0000u64 + low) by (bit_vector)
        requires
            low < 0x1_0000_0000u64,
    ;
}

/// Decoding the user data of a submission gives back the operation it was
/// made for, whatever the file descriptor.
pub proof fn lemma_decode_encode(op: OpType)
    ensures
        decode(encode(op)) == Some(op),
{
    match op {
        OpType::Accept => {},
        OpType::Read(fd) => {
            assert(0 <= fd_word(fd) < word());
            assert(word_fd(fd_word(fd)) == fd);
        },
        OpType::Write(fd) => {
            assert(0 <= fd_word(fd) < word());
            assert(word_fd(fd_word(fd)) == fd);
        },
    }
}

/// A user data value whose operation code is read or write is exactly the
/// encoding of the operation it decodes to; an accept tag is, once its low
/// bits are zero.
pub proof fn lemma_encode_decode(value: u64)
    requires
        decode(value) is Some,
        decode(value) == Some(OpType::Accept) ==> value as int % word() == 0,
    ensures
        encode(decode(value)->0) == value,
{
    let w = value as int % word();
    assert(0 <= w < word());
    assert(fd_word(word_fd(w) as i32) == w);
}

} // verus!
