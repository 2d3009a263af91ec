use airisp::hex_to_bin::{decode_bytes, hex_to_bin, Bin, DecodeError};

fn total(image: &[Bin]) -> usize {
    image.iter().map(|b| b.data.len()).sum()
}

#[test]
fn two_data_records_make_one_segment() {
    let text = ":020000040800F2\n:0400000001020304F2\n:04000400AABBCCDDEA\n:00000001FF\n";
    let image = hex_to_bin(text).unwrap();
    assert_eq!(image.len(), 1);
    assert_eq!(image[0].address, 0x0800_0000);
    assert_eq!(image[0].data, vec![0x01, 0x02, 0x03, 0x04, 0xAA, 0xBB, 0xCC, 0xDD]);
}

#[test]
fn gap_between_records_is_filled() {
    let text = ":020000040800F2\n:080000000102030405060708D4\n:04001000A1A2A3A4FF\n:00000001FF\n";
    let image = hex_to_bin(text).unwrap();
    assert_eq!(image.len(), 1);
    assert_eq!(image[0].data.len(), 20);
    assert_eq!(&image[0].data[0..8], &[1, 2, 3, 4, 5, 6, 7, 8]);
    assert!(image[0].data[8..16].iter().all(|b| *b == 0xFF));
    assert_eq!(&image[0].data[16..20], &[0xA1, 0xA2, 0xA3, 0xA4]);
}

#[test]
fn data_before_any_base_record_is_dropped() {
    let text = ":0400000001020304F2\n:04000400AABBCCDDEA\n";
    let image = hex_to_bin(text).unwrap();
    assert_eq!(total(&image), 0);
    assert_eq!(image.len(), 1);
    assert_eq!(image[0].address, 0);
}

#[test]
fn data_before_the_first_base_record_is_not_even_read() {
    let text = ":04000000ZZ\n:020000040800F2\n:0100000055AA\n";
    let image = hex_to_bin(text).unwrap();
    assert_eq!(image.len(), 1);
    assert_eq!(image[0].address, 0x0800_0000);
    assert_eq!(image[0].data, vec![0x55]);
}

#[test]
fn truncated_last_record_is_an_error() {
    let text = ":020000040800F2\n:0400000001020304F2\n:04000400AABB";
    assert_eq!(hex_to_bin(text).unwrap_err(), DecodeError::Truncated);
}

#[test]
fn short_header_is_an_error() {
    assert_eq!(hex_to_bin(":0200").unwrap_err(), DecodeError::Truncated);
    assert_eq!(hex_to_bin("\n").unwrap_err(), DecodeError::Truncated);
    assert_eq!(hex_to_bin(":00000001FF\n\n").unwrap().len(), 1);
}

#[test]
fn blank_line_before_the_end_is_an_error() {
    assert_eq!(hex_to_bin(":020000040800F2\n\n:00000001FF\n").unwrap_err(), DecodeError::Truncated);
}

#[test]
fn character_that_is_no_digit_is_an_error() {
    assert_eq!(hex_to_bin(":0G0000040800F2\n").unwrap_err(), DecodeError::NotHex);
    assert_eq!(hex_to_bin(":02000004080xF2\n").unwrap_err(), DecodeError::NotHex);
    assert_eq!(hex_to_bin(":020000040800F2\n:01000000+1\n").unwrap_err(), DecodeError::NotHex);
    assert_eq!(hex_to_bin("é2000004").unwrap_err(), DecodeError::NotHex);
}

#[test]
fn lines_after_the_end_record_are_ignored() {
    let text = ":020000040800F2\n:0100000011EE\n:00000001FF\nthis is not a record\n";
    let image = hex_to_bin(text).unwrap();
    assert_eq!(image.len(), 1);
    assert_eq!(image[0].data, vec![0x11]);
}

#[test]
fn each_base_record_opens_a_segment() {
    let text = ":020000040800F2\n:0200000011225B\n:020000040801F1\n:0100000033CC\n";
    let image = hex_to_bin(text).unwrap();
    assert_eq!(image.len(), 2);
    assert_eq!(image[0].address, 0x0800_0000);
    assert_eq!(image[0].data, vec![0x11, 0x22]);
    assert_eq!(image[1].address, 0x0801_0000);
    assert_eq!(image[1].data, vec![0x33]);
}

#[test]
fn unknown_record_types_are_skipped() {
    let text = ":020000040800F2\n:0400000508000131B9\n:0100000044BB\n";
    let image = hex_to_bin(text).unwrap();
    assert_eq!(image.len(), 1);
    assert_eq!(image[0].data, vec![0x44]);
}

#[test]
fn colons_spaces_and_carriage_returns_do_not_matter() {
    let text = ": 02 0000 04 0800 F2\r\n01 00 00 00 7f\r\n:00000001FF\r\n";
    let image = hex_to_bin(text).unwrap();
    assert_eq!(image.len(), 1);
    assert_eq!(image[0].address, 0x0800_0000);
    assert_eq!(image[0].data, vec![0x7F]);
}

#[test]
fn checksum_may_be_wrong_or_missing() {
    let text = ":020000040800\n:020000001122\n";
    let image = hex_to_bin(text).unwrap();
    assert_eq!(image[0].data, vec![0x11, 0x22]);
}

#[test]
fn record_behind_the_cursor_is_appended() {
    let text = ":020000040800F2\n:0200000011225B\n:02000000334400\n";
    let image = hex_to_bin(text).unwrap();
    assert_eq!(image[0].data, vec![0x11, 0x22, 0x33, 0x44]);
}

#[test]
fn offset_ahead_of_the_cursor_sets_the_length_first() {
    // After the gap the window holds 6 bytes and the cursor stands at 4:
    // a record at offset 5 cuts the window to 5 bytes before its payload.
    let text = ":020000040800F2\n:0200000011225B\n:0200040033440A\n:0100050055A5\n";
    let image = hex_to_bin(text).unwrap();
    assert_eq!(image[0].data, vec![0x11, 0x22, 0xFF, 0xFF, 0x33, 0x55]);
}

#[test]
fn empty_text_is_an_empty_image() {
    let image = hex_to_bin("").unwrap();
    assert_eq!(image.len(), 1);
    assert_eq!(total(&image), 0);
}

#[test]
fn bytes_and_text_decode_alike() {
    let text = ":020000040800F2\n:0100000011EE\n";
    let a = hex_to_bin(text).unwrap();
    let b = decode_bytes(text.as_bytes()).unwrap();
    assert_eq!(a.len(), b.len());
    assert_eq!(a[0].address, b[0].address);
    assert_eq!(a[0].data, b[0].data);
}
