use pov_display::encoder::{
    add_even_parity, decode_reply, has_even_parity, nop_command, read_command, As5047p,
    As5047pError, As5047pVelocityEstimator, REG_ANGLECOM,
};

#[test]
fn parity_bit_makes_even() {
    for w in [0u16, 1, 0x3fff, 0x4000 | 0x3fff, 0x1234, 0x7fff] {
        let p = add_even_parity(w);
        assert!(has_even_parity(p), "{:#x}", w);
        assert_eq!(p & 0x7fff, w & 0x7fff);
        assert_eq!(p.count_ones() % 2, 0);
    }
    assert_eq!(add_even_parity(1), 0x8001);
    assert_eq!(add_even_parity(3), 3);
    assert_eq!(add_even_parity(0x8000), 0);
}

#[test]
fn read_angle_command() {
    assert_eq!(read_command(REG_ANGLECOM), 0xffff);
    assert_eq!(read_command(0x0001), 0x4001);
    assert_eq!(nop_command(), 0);
}

#[test]
fn reply_decoding() {
    assert_eq!(decode_reply::<()>(true, 0x1234 | 0x8000 * ((0x1234u16.count_ones() % 2) as u16)), Ok(0x1234));
    assert_eq!(decode_reply::<()>(true, 0x0001), Err(As5047pError::BadParity));
    assert_eq!(decode_reply::<()>(false, 0x0001), Ok(1));
    assert_eq!(decode_reply::<()>(true, 0xC000), Err(As5047pError::SensorError));
    assert_eq!(decode_reply::<()>(false, 0x4001), Err(As5047pError::SensorError));
}

#[test]
fn lut_index() {
    assert_eq!(As5047p::<()>::raw_to_lut_index(0, 1024), 0);
    assert_eq!(As5047p::<()>::raw_to_lut_index(16383, 1024), 1023);
    assert_eq!(As5047p::<()>::raw_to_lut_index(8192, 1024), 512);
    assert_eq!(As5047p::<()>::raw_to_lut_index(15, 1024), 0);
    assert_eq!(As5047p::<()>::raw_to_lut_index(16, 1024), 1);
}

#[test]
fn driver_settings() {
    let enc = As5047p::new(7u8);
    assert!(enc.parity_check_enabled());
    let mut enc = enc.with_parity_check(false);
    assert!(!enc.parity_check_enabled());
    *enc.device_mut() = 9;
    assert_eq!(enc.release(), 9);
}

#[test]
fn velocity_counts_wrap() {
    let mut est = As5047pVelocityEstimator::new();
    assert_eq!(est.update_counts(100), None);
    assert_eq!(est.update_counts(150), Some(50));
    assert_eq!(est.update_counts(16380), Some(16380 - 150 - 16384));
    assert_eq!(est.update_counts(10), Some(14));
    assert_eq!(est.update_counts(8202), Some(8192));
    est.reset();
    assert_eq!(est.update_counts(0), None);
    assert_eq!(est.update_counts(8193), Some(8193 - 16384));
}
