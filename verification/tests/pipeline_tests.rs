use pov_display::pipeline::{downsample_to_frame, frames_to_animation, frames_to_lut_bytes, frames_to_postcard};
use pov_display::wire::{bake_animation, bake_frames};

#[test]
fn lut_bytes_layout() {
    let mut a = [0u16; 16];
    a[0] = 0x0102;
    let mut b = [0u16; 16];
    b[15] = 0xA0B0;
    let bytes = frames_to_lut_bytes(&[a, b]);
    assert_eq!(bytes.len(), 64);
    assert_eq!(&bytes[0..2], &[0x02, 0x01]);
    assert_eq!(&bytes[62..64], &[0xB0, 0xA0]);
    assert!(bytes[2..62].iter().all(|&x| x == 0));
}

#[test]
fn pipeline_matches_bake() {
    let mut a = [0u16; 16];
    a[4] = 4;
    let frames = vec![[0u16; 16], a, a];
    assert_eq!(frames_to_postcard(&frames), bake_frames(&frames));
    let pages = vec![frames.clone(), vec![a]];
    assert_eq!(frames_to_animation(&pages), bake_animation(&pages));
}

#[test]
fn downsample_centres() {
    let (w, h) = (32u32, 32u32);
    let mut px = vec![0u8; (w * h * 4) as usize];
    // cell (col 3, row 5): centre pixel (3*2+1, 5*2+1)
    let idx = ((11 * w + 7) * 4) as usize;
    px[idx] = 255;
    px[idx + 1] = 255;
    px[idx + 2] = 255;
    let f = downsample_to_frame(&px, w, h, 128);
    assert_eq!(f[5], 1 << 3);
    assert_eq!(f.iter().filter(|&&r| r != 0).count(), 1);
}

#[test]
fn downsample_threshold_and_bounds() {
    // luma of (100, 100, 100) is 100
    let px = vec![100u8; 16 * 16 * 4];
    assert_eq!(downsample_to_frame(&px, 16, 16, 99), [0xFFFF; 16]);
    assert_eq!(downsample_to_frame(&px, 16, 16, 100), [0; 16]);
    // buffer too short: nothing lit
    assert_eq!(downsample_to_frame(&px[..8], 16, 16, 0)[1], 0);
}
