use pov_display::wire::{bake_animation, decode_animation};
use pov_display::animation::{Animation, Keyframe, Page};
use pov_display::frame::frame_to_bytes;
use pov_display::pool::{AnimationPool, PoolError, MAX_TOTAL_KEYFRAMES};

fn frame_with(row: usize, bits: u16) -> [u16; 16] {
    let mut f = [0u16; 16];
    f[row] = bits;
    f
}

fn page(ticks_and_bits: &[(u16, u16)]) -> Page {
    Page {
        keyframes: ticks_and_bits
            .iter()
            .map(|&(t, b)| Keyframe { angle_tick: t, frame: frame_with(0, b) })
            .collect(),
    }
}

#[test]
fn empty_pool_shows_blank() {
    let pool = AnimationPool::new();
    assert!(!pool.has_animation());
    assert_eq!(pool.page_count(), 0);
    assert_eq!(pool.get_frame(0, 10), [0u8; 32]);
}

#[test]
fn read_after_upload_single_page() {
    let mut pool = AnimationPool::new();
    let anim = Animation { pages: vec![page(&[(0, 1), (100, 2), (500, 3)])] };
    assert_eq!(pool.set_animation(anim), Ok(()));
    assert!(pool.has_animation());
    assert_eq!(pool.page_count(), 1);
    assert_eq!(pool.animation_count(), 1);
    assert_eq!(pool.get_frame(0, 0), frame_to_bytes(&frame_with(0, 1)));
    assert_eq!(pool.get_frame(0, 99), frame_to_bytes(&frame_with(0, 1)));
    assert_eq!(pool.get_frame(0, 100), frame_to_bytes(&frame_with(0, 2)));
    assert_eq!(pool.get_frame(7, 1023), frame_to_bytes(&frame_with(0, 3)));
}

#[test]
fn angle_before_first_keyframe_is_blank() {
    let mut pool = AnimationPool::new();
    pool.set_animation(Animation { pages: vec![page(&[(10, 9)])] }).unwrap();
    assert_eq!(pool.get_frame(0, 9), [0u8; 32]);
    assert_eq!(pool.get_frame(0, 10), frame_to_bytes(&frame_with(0, 9)));
}

#[test]
fn revolution_selects_page() {
    let mut pool = AnimationPool::new();
    let anim = Animation { pages: vec![page(&[(0, 1)]), page(&[(0, 2), (50, 4)]), page(&[])] };
    pool.set_animation(anim).unwrap();
    assert_eq!(pool.page_count(), 3);
    assert_eq!(pool.get_frame(0, 60), frame_to_bytes(&frame_with(0, 1)));
    assert_eq!(pool.get_frame(1, 10), frame_to_bytes(&frame_with(0, 2)));
    assert_eq!(pool.get_frame(1, 60), frame_to_bytes(&frame_with(0, 4)));
    assert_eq!(pool.get_frame(2, 60), [0u8; 32]);
    assert_eq!(pool.get_frame(4, 60), frame_to_bytes(&frame_with(0, 4)));
}

#[test]
fn no_pages_refused() {
    let mut pool = AnimationPool::new();
    let err = pool.set_animation(Animation { pages: vec![] }).unwrap_err();
    assert_eq!(err, PoolError::PagesOutOfRange);
    assert_eq!(err.message(), "pages out of range");
    assert!(!pool.has_animation());
}

#[test]
fn too_many_pages_refused() {
    let mut pool = AnimationPool::new();
    let pages: Vec<Page> = (0..9).map(|_| page(&[(0, 1)])).collect();
    assert_eq!(pool.set_animation(Animation { pages }), Err(PoolError::PagesOutOfRange));
    assert_eq!(pool.animation_count(), 0);
}

#[test]
fn oversized_page_refused() {
    let mut pool = AnimationPool::new();
    let big: Vec<(u16, u16)> = (0..513).map(|i| (i as u16, 1)).collect();
    let err = pool.set_animation(Animation { pages: vec![page(&big)] }).unwrap_err();
    assert_eq!(err, PoolError::TooManyKeyframesInPage);
    assert_eq!(err.message(), "too many keyframes in page");
    assert_eq!(pool.page_count(), 0);
}

#[test]
fn total_keyframes_refused() {
    let mut pool = AnimationPool::new();
    let half: Vec<(u16, u16)> = (0..512).map(|i| (i as u16, 1)).collect();
    let anim = Animation { pages: vec![page(&half), page(&half), page(&[(0, 1)])] };
    let err = pool.set_animation(anim).unwrap_err();
    assert_eq!(err, PoolError::TotalKeyframesExceeded);
    assert_eq!(err.message(), "total keyframes exceeded");
    assert_eq!(MAX_TOTAL_KEYFRAMES, 1024);
}

#[test]
fn refused_upload_keeps_page_count_and_counters() {
    let mut pool = AnimationPool::new();
    pool.set_animation(Animation { pages: vec![page(&[(0, 1)]), page(&[(0, 2)])] }).unwrap();
    pool.increment_rev();
    let big: Vec<(u16, u16)> = (0..600).map(|i| (i as u16, 1)).collect();
    assert!(pool.set_animation(Animation { pages: vec![page(&big)] }).is_err());
    assert_eq!(pool.page_count(), 2);
    assert_eq!(pool.rev_count(), 1);
    assert_eq!(pool.animation_count(), 1);
}

#[test]
fn upload_resets_revolutions_and_counts() {
    let mut pool = AnimationPool::new();
    pool.set_animation(Animation { pages: vec![page(&[(0, 1)])] }).unwrap();
    pool.increment_rev();
    pool.increment_rev();
    assert_eq!(pool.rev_count(), 2);
    pool.set_animation(Animation { pages: vec![page(&[(0, 2)])] }).unwrap();
    assert_eq!(pool.rev_count(), 0);
    assert_eq!(pool.animation_count(), 2);
}

#[test]
fn baked_revolutions_are_shown() {
    let mut rev0 = Vec::new();
    let mut rev1 = Vec::new();
    for a in 0..64u16 {
        rev0.push(frame_with((a / 8) as usize, 1 << (a % 16)));
        rev1.push(frame_with(3, if a < 32 { 7 } else { 9 }));
    }
    let bytes = bake_animation(&[rev0.clone(), rev1.clone()]);
    let mut pool = AnimationPool::new();
    pool.set_animation(decode_animation(&bytes).unwrap()).unwrap();
    for angle in 0..64 {
        assert_eq!(pool.get_frame(0, angle), frame_to_bytes(&rev0[angle]));
        assert_eq!(pool.get_frame(1, angle), frame_to_bytes(&rev1[angle]));
        assert_eq!(pool.get_frame(2, angle), frame_to_bytes(&rev0[angle]));
    }
}

#[test]
fn revolution_beyond_32_bits_uses_full_remainder() {
    let mut pool = AnimationPool::new();
    let anim = Animation { pages: vec![page(&[(0, 1)]), page(&[(0, 2)]), page(&[(0, 3)])] };
    pool.set_animation(anim).unwrap();
    // 2^32 % 3 == 1
    assert_eq!(pool.get_frame(1u64 << 32, 0), frame_to_bytes(&frame_with(0, 2)));
    assert_eq!(pool.get_frame(u64::MAX, 0), frame_to_bytes(&frame_with(0, (u64::MAX % 3) as u16 + 1)));
}
