use pov_display::frame::{bytes_to_frame, frame_to_bytes, Frame};

#[test]
fn frame_roundtrip() {
    let f: Frame = [
        0xDEAD, 0xBEEF, 0xCAFE, 0xABCD, 0x1234, 0x5678, 0x9ABC, 0xDEF0, 0x1111, 0x2222, 0x3333,
        0x4444, 0x5555, 0x6666, 0x7777, 0x8888,
    ];
    let bytes = frame_to_bytes(&f);
    let back = bytes_to_frame(&bytes);
    assert_eq!(f, back);
}

#[test]
fn frame_bytes_are_little_endian_rows() {
    let mut f: Frame = [0; 16];
    f[0] = 0x1234;
    f[15] = 0xABCD;
    let bytes = frame_to_bytes(&f);
    assert_eq!(bytes[0], 0x34);
    assert_eq!(bytes[1], 0x12);
    assert_eq!(bytes[30], 0xCD);
    assert_eq!(bytes[31], 0xAB);
    assert!(bytes[2..30].iter().all(|&b| b == 0));
}

#[test]
fn bytes_roundtrip_through_frame() {
    let mut bytes = [0u8; 32];
    for (i, b) in bytes.iter_mut().enumerate() {
        *b = (i as u8).wrapping_mul(37).wrapping_add(5);
    }
    let frame = bytes_to_frame(&bytes);
    assert_eq!(frame[0], u16::from_le_bytes([bytes[0], bytes[1]]));
    assert_eq!(frame_to_bytes(&frame), bytes);
}
