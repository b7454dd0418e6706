use chip_8_emulator::screen::{fix_u32_endianness, FRAME_BUFFER_SIZE, SCREEN_SCALE_FACTOR};

#[test]
fn screen_constants() {
    assert_eq!(SCREEN_SCALE_FACTOR, 10);
    assert_eq!(FRAME_BUFFER_SIZE, 256);
}

#[test]
fn every_group_of_four_bytes_is_reversed() {
    let mut bytes = [0u8; 256];
    for (i, byte) in bytes.iter_mut().enumerate() {
        *byte = i as u8;
    }
    let fixed = fix_u32_endianness(&bytes);
    assert_eq!(&fixed[0..8], &[3, 2, 1, 0, 7, 6, 5, 4]);
    assert_eq!(&fixed[252..256], &[255, 254, 253, 252]);
    for i in 0..256 {
        assert_eq!(fixed[i], bytes[i - i % 4 + 3 - i % 4]);
    }
}

#[test]
fn reversing_twice_gives_the_buffer_back() {
    let mut bytes = [0u8; 256];
    for (i, byte) in bytes.iter_mut().enumerate() {
        *byte = (i as u8).wrapping_mul(37).wrapping_add(11);
    }
    let once = fix_u32_endianness(&bytes);
    assert_ne!(once, bytes);
    assert_eq!(fix_u32_endianness(&once), bytes);
}

#[test]
fn a_black_buffer_stays_black() {
    assert_eq!(fix_u32_endianness(&[0u8; 256]), [0u8; 256]);
}
