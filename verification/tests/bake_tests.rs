use pov_display::animation::{frames_to_page, Keyframe};
use pov_display::frame::Frame;
use pov_display::wire::{bake_animation, bake_frames, decode_animation, encode_animation};
use pov_display::animation::{Animation, Page};

fn fake_frames(n: usize) -> Vec<Frame> {
    let mut frames = Vec::with_capacity(n);
    let mut prev = [0u16; 16];
    for i in 0..n {
        let mut f = prev;
        if i % 3 == 0 {
            f[7] ^= 1u16 << 7;
        }
        frames.push(f);
        prev = f;
    }
    frames
}

#[test]
fn single_page_backward_compat() {
    let frames = fake_frames(64);
    let bytes = bake_frames(&frames);
    let anim: Animation = decode_animation(&bytes).unwrap();
    assert_eq!(anim.pages.len(), 1);
}

#[test]
fn multi_page_does_not_mix() {
    let p0 = fake_frames(16);
    let p1 = fake_frames(16);
    let bytes = bake_animation(&[p0, p1]);
    let anim: Animation = decode_animation(&bytes).unwrap();
    assert_eq!(anim.pages.len(), 2);
}

#[test]
fn keyframe_reconstruction_full() {
    let frames = fake_frames(64);
    let bytes = bake_frames(&frames);
    let anim: Animation = decode_animation(&bytes).unwrap();
    let page = &anim.pages[0];
    for angle in 0..64 {
        let expected = frames[angle];
        let idx = page
            .keyframes
            .partition_point(|k| (k.angle_tick as usize) <= angle);
        let actual = if idx == 0 { [0; 16] } else { page.keyframes[idx - 1].frame };
        assert_eq!(expected, actual, "mismatch at angle {}", angle);
    }
    assert!(bytes.len() < 64 * 32, "keyframe compression");
}

#[test]
fn page_keeps_only_changes() {
    let frames = fake_frames(7);
    let page = frames_to_page(&frames);
    let ticks: Vec<u16> = page.keyframes.iter().map(|k| k.angle_tick).collect();
    assert_eq!(ticks, vec![0, 3, 6]);
    assert_eq!(page.keyframes[1].frame, frames[3]);
}

#[test]
fn blank_first_frame_is_not_a_keyframe() {
    let mut frames = vec![[0u16; 16]; 4];
    frames[2][0] = 1;
    let page = frames_to_page(&frames);
    assert_eq!(page.keyframes.len(), 2);
    assert_eq!(page.keyframes[0].angle_tick, 2);
    assert_eq!(page.keyframes[1].angle_tick, 3);
    assert_eq!(page.keyframes[1].frame, [0u16; 16]);
}

#[test]
fn empty_revolution_gives_empty_page() {
    let page = frames_to_page(&[]);
    assert!(page.keyframes.is_empty());
}

#[test]
fn encode_decode_roundtrip() {
    let mut f = [0u16; 16];
    f[3] = 0x8001;
    let anim = Animation {
        pages: vec![
            Page { keyframes: vec![Keyframe { angle_tick: 5, frame: f }] },
            Page { keyframes: vec![] },
        ],
    };
    let bytes = encode_animation(&anim);
    let back = decode_animation(&bytes).unwrap();
    assert_eq!(back.pages.len(), 2);
    assert_eq!(back.pages[0].keyframes[0].angle_tick, 5);
    assert_eq!(back.pages[0].keyframes[0].frame, f);
    assert!(back.pages[1].keyframes.is_empty());
}

#[test]
fn encoding_is_postcard_layout() {
    let anim = Animation { pages: vec![Page { keyframes: vec![Keyframe { angle_tick: 300, frame: [1u16; 16] }] }] };
    let bytes = encode_animation(&anim);
    // one page, one keyframe, tick 300 as a varint, then sixteen 1s
    let mut expected = vec![1u8, 1, 0xAC, 0x02];
    expected.extend(std::iter::repeat(1u8).take(16));
    assert_eq!(bytes, expected);
}

#[test]
fn garbage_is_refused() {
    let err = decode_animation(&[0x05]).unwrap_err();
    assert!(!err.detail.is_empty());
}
