use airisp::frames::{
    address_frame, command_frame, data_frame, erase_all_frame, ACK, EXTENDED_ERASE, GET_ID, NACK,
    SYNC, WRITE_MEMORY,
};

fn xor(bytes: &[u8]) -> u8 {
    bytes.iter().fold(0, |a, b| a ^ b)
}

#[test]
fn protocol_bytes() {
    assert_eq!(ACK, 0x79);
    assert_eq!(NACK, 0x1F);
    assert_eq!(SYNC, 0x7F);
}

#[test]
fn command_frame_is_opcode_and_complement() {
    assert_eq!(command_frame(GET_ID), vec![0x02, 0xFD]);
    assert_eq!(command_frame(WRITE_MEMORY), vec![0x31, 0xCE]);
    assert_eq!(command_frame(EXTENDED_ERASE), vec![0x44, 0xBB]);
}

#[test]
fn every_command_frame_ends_in_the_complement() {
    for opcode in 0..=255u8 {
        let frame = command_frame(opcode);
        assert_eq!(frame.len(), 2);
        assert_eq!(frame[0], opcode);
        assert_eq!(frame[1], !frame[0]);
    }
}

#[test]
fn address_frame_is_big_endian_with_checksum() {
    assert_eq!(address_frame(0x0800_1000), vec![0x08, 0x00, 0x10, 0x00, 0x18]);
    assert_eq!(address_frame(0x0800_1100), vec![0x08, 0x00, 0x11, 0x00, 0x19]);
    assert_eq!(address_frame(0x1234_5678), vec![0x12, 0x34, 0x56, 0x78, 0x08]);
    assert_eq!(address_frame(0), vec![0, 0, 0, 0, 0]);
    assert_eq!(address_frame(0xFFFF_FFFF), vec![0xFF, 0xFF, 0xFF, 0xFF, 0x00]);
}

#[test]
fn address_frame_checksum_is_the_xor_of_the_address_bytes() {
    for address in [0u32, 1, 0x0800_0000, 0x2000_0123, 0xDEAD_BEEF, 0xFFFF_FFFE] {
        let frame = address_frame(address);
        assert_eq!(frame.len(), 5);
        assert_eq!(xor(&frame[..4]), frame[4]);
        assert_eq!(u32::from_be_bytes([frame[0], frame[1], frame[2], frame[3]]), address);
    }
}

#[test]
fn data_frame_is_length_payload_checksum() {
    assert_eq!(data_frame(&[0xAA]), vec![0x00, 0xAA, 0xAA]);
    assert_eq!(data_frame(&[1, 2, 3, 4]), vec![3, 1, 2, 3, 4, 3 ^ 1 ^ 2 ^ 3 ^ 4]);
}

#[test]
fn data_frame_of_a_full_chunk() {
    let payload: Vec<u8> = (0..256).map(|i| (i * 7) as u8).collect();
    let frame = data_frame(&payload);
    assert_eq!(frame.len(), 258);
    assert_eq!(frame[0], 255);
    assert_eq!(&frame[1..257], &payload[..]);
    assert_eq!(xor(&frame[..257]), frame[257]);
}

#[test]
fn data_frame_checksum_covers_length_and_payload() {
    for len in [1usize, 2, 44, 255, 256] {
        let payload: Vec<u8> = (0..len).map(|i| (i as u8).wrapping_mul(31).wrapping_add(5)).collect();
        let frame = data_frame(&payload);
        assert_eq!(frame.len(), len + 2);
        assert_eq!(frame[0] as usize, len - 1);
        assert_eq!(xor(&frame[..len + 1]), frame[len + 1]);
    }
}

#[test]
fn erase_all_frame_is_fixed() {
    let frame = erase_all_frame();
    assert_eq!(frame, vec![0xFF, 0xFF, 0x00]);
    assert_eq!(xor(&frame[..2]), frame[2]);
}
