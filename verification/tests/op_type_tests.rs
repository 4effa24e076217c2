use rut_io_example::op_type::{OpType, DISCONNECTED, OPERATION_ACCEPT, OPERATION_READ, OPERATION_WRITE};

#[test]
fn accept_tag_is_operation_code_in_high_bits() {
    assert_eq!(OpType::Accept.to_user_data(), 1u64 << 32);
    assert_eq!(u64::from(OpType::Accept), 0x1_0000_0000);
}

#[test]
fn read_and_write_tags_carry_fd_in_low_bits() {
    assert_eq!(u64::from(OpType::Read(7)), (2u64 << 32) | 7);
    assert_eq!(u64::from(OpType::Write(9)), (3u64 << 32) | 9);
}

#[test]
fn negative_fd_keeps_its_bits() {
    assert_eq!(u64::from(OpType::Read(-1)), (2u64 << 32) | 0xFFFF_FFFF);
    assert_eq!(OpType::decode_user_data((2u64 << 32) | 0xFFFF_FFFF), Some(OpType::Read(-1)));
}

#[test]
fn decode_gives_back_every_encoded_operation() {
    for op in [
        OpType::Accept,
        OpType::Read(0),
        OpType::Read(5),
        OpType::Write(i32::MAX),
        OpType::Write(i32::MIN),
        OpType::Read(-42),
    ] {
        assert_eq!(OpType::decode_user_data(u64::from(op)), Some(op));
        assert_eq!(OpType::from_user_data(op.to_user_data()), op);
    }
}

#[test]
fn accept_tag_ignores_low_bits() {
    assert_eq!(OpType::decode_user_data((1u64 << 32) | 1234), Some(OpType::Accept));
}

#[test]
fn unknown_operation_codes_decode_to_none() {
    assert_eq!(OpType::decode_user_data(0), None);
    assert_eq!(OpType::decode_user_data(4u64 << 32), None);
    assert_eq!(OpType::decode_user_data(u64::MAX), None);
    assert_eq!(OpType::decode_user_data(((1u64 << 31) + 1) << 32), None);
}

#[test]
fn operation_constants() {
    assert_eq!(DISCONNECTED, 0);
    assert_eq!((OPERATION_ACCEPT, OPERATION_READ, OPERATION_WRITE), (1, 2, 3));
}
