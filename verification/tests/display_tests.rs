use pov_display::animation::{Animation, Keyframe, Page};
use pov_display::display::{poll_display, revolution_completed, FrameWriter, NullWriter, PovDisplay};
use pov_display::frame::frame_to_bytes;
use pov_display::pool::AnimationPool;
use pov_display::scan::{pack_column, transpose_columns};

struct Recorder {
    frames: Vec<[u8; 32]>,
}

impl FrameWriter for Recorder {
    type Error = ();
    fn write_frame_bytes(&mut self, data: &[u8; 32]) -> Result<(), ()> {
        self.frames.push(*data);
        Ok(())
    }
}

fn loaded_pool() -> AnimationPool {
    let mut pool = AnimationPool::new();
    let mut a = [0u16; 16];
    a[0] = 1;
    let mut b = [0u16; 16];
    b[1] = 2;
    let anim = Animation {
        pages: vec![
            Page { keyframes: vec![Keyframe { angle_tick: 0, frame: a }] },
            Page { keyframes: vec![Keyframe { angle_tick: 0, frame: b }] },
        ],
    };
    pool.set_animation(anim).unwrap();
    pool
}

#[test]
fn render_nothing_without_animation() {
    let pool = AnimationPool::new();
    let mut d = PovDisplay::new(Recorder { frames: vec![] }, 1024);
    d.render_angle(&pool, 5);
    assert!(d.writer_mut().frames.is_empty());
}

#[test]
fn render_and_clear() {
    let pool = loaded_pool();
    let mut d = PovDisplay::new(Recorder { frames: vec![] }, 1024);
    d.render_angle(&pool, 1024 + 3);
    d.clear();
    let mut a = [0u16; 16];
    a[0] = 1;
    assert_eq!(d.writer_mut().frames, vec![frame_to_bytes(&a), [0u8; 32]]);
}

#[test]
fn poll_advances_revolution() {
    let mut pool = loaded_pool();
    let mut d = PovDisplay::new(Recorder { frames: vec![] }, 1024);
    assert_eq!(poll_display(&mut d, &mut pool, false, 0, 900), Some(900));
    assert_eq!(pool.rev_count(), 0);
    assert_eq!(poll_display(&mut d, &mut pool, false, 900, 2), Some(2));
    assert_eq!(pool.rev_count(), 1);
    let mut b = [0u16; 16];
    b[1] = 2;
    assert_eq!(*d.writer_mut().frames.last().unwrap(), frame_to_bytes(&b));
    assert_eq!(poll_display(&mut d, &mut pool, true, 2, 1), None);
    assert_eq!(pool.rev_count(), 1);
    assert_eq!(*d.writer_mut().frames.last().unwrap(), [0u8; 32]);
}

#[test]
fn revolution_detection() {
    assert!(revolution_completed(1000, 3, 1024));
    assert!(!revolution_completed(400, 3, 1024));
    assert!(!revolution_completed(1000, 1001, 1024));
}

#[test]
fn null_writer_accepts() {
    let mut d = PovDisplay::new(NullWriter, 16);
    d.set_steps(1024);
    d.clear();
    assert!(d.writer_mut().write_frame_bytes(&[1u8; 32]).is_ok());
}

#[test]
fn transpose_is_column_masks() {
    let mut f = [0u16; 16];
    f[2] = 1 << 5;
    f[15] = 1 << 0 | 1 << 15;
    let cols = transpose_columns(&f);
    assert_eq!(cols[5], 1 << 2);
    assert_eq!(cols[0], 1 << 15);
    assert_eq!(cols[15], 1 << 15);
    assert_eq!(cols.iter().filter(|&&c| c != 0).count(), 3);
    assert_eq!(transpose_columns(&cols), f);
}

#[test]
fn column_packing() {
    // column 0, rows 0 and 8 lit: cycle 0 nibble = r_hi|r_lo|c_lo = 0b1101
    assert_eq!(pack_column(0, 0x0101), [0xD0, 0, 0, 0, 0, 0, 0, 0]);
    // column 9: c_hi bit on cycle 1
    assert_eq!(pack_column(9, 0), [0x02, 0, 0, 0, 0, 0, 0, 0]);
    // column 7, row 7: cycle 7 low nibble of byte 3 = r_lo|c_lo
    assert_eq!(pack_column(7, 1 << 7), [0, 0, 0, 0x05, 0, 0, 0, 0]);
}
