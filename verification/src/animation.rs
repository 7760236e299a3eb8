//! Sparse keyframe animations: one page per revolution, holding a
//! keyframe only at the angles where the displayed frame changes.

use vstd::prelude::*;
use crate::frame::Frame;

verus! {

/// The complete frame shown from one angle on.
#[derive(Clone, Copy, Debug)]
pub struct Keyframe {
    /// Angle index (0 .. 1023).
    pub angle_tick: u16,
    /// The 16 rows of the frame.
    pub frame: Frame,
}

/// One revolution of an animation: keyframes sorted by strictly
/// increasing `angle_tick`.
#[derive(Clone, Debug)]
pub struct Page {
    pub keyframes: Vec<Keyframe>,
}

/// A whole animation: revolution `n` is shown with `pages[n % pages.len()]`.
#[derive(Debug)]
pub struct Animation {
    pub pages: Vec<Page>,
}

/// The all-dark frame, as rows.
pub open spec fn blank_rows() -> Seq<u16> {
    Seq::new(16, |i: int| 0u16)
}

/// The rows shown at angle `angle` by a keyframe list: those of the last
/// keyframe (in list order) whose tick is at most `angle`, or a blank frame
/// when there is none.
pub open spec fn rows_at(keyframes: Seq<Keyframe>, angle: int) -> Seq<u16>
    decreases keyframes.len(),
{
    if keyframes.len() == 0 {
        blank_rows()
    } else if keyframes.last().angle_tick <= angle {
        keyframes.last().frame@
    } else {
        rows_at(keyframes.drop_last(), angle)
    }
}

/// Ticks strictly increase along the list.
pub open spec fn ticks_increasing(keyframes: Seq<Keyframe>) -> bool {
    forall|i: int, j: int|
        0 <= i < j < keyframes.len() ==> keyframes[i].angle_tick < keyframes[j].angle_tick
}

/// The rows shown just before angle `i` while recording `frames`: blank
/// before the first frame, the previous frame afterwards.
pub open spec fn previous_rows(frames: Seq<Frame>, i: int) -> Seq<u16> {
    if i == 0 {
        blank_rows()
    } else {
        frames[i - 1]@
    }
}

/// The keyframes recorded for one revolution of frames: frame `i` gets a
/// keyframe, tagged `i as u16`, exactly when it differs from the frame
/// before it (the first frame is compared with a blank frame).
pub open spec fn changed_keyframes(frames: Seq<Frame>) -> Seq<Keyframe>
    decreases frames.len(),
{
    if frames.len() == 0 {
        Seq::empty()
    } else {
        let n = frames.len() - 1;
        let prefix = changed_keyframes(frames.drop_last());
        if frames[n]@ != previous_rows(frames, n) {
            prefix.push(Keyframe { angle_tick: n as u16, frame: frames[n] })
        } else {
            prefix
        }
    }
}

proof fn lemma_changed_keyframes_shape(frames: Seq<Frame>)
    requires
        frames.len() <= 65536,
    ensures
        changed_keyframes(frames).len() <= frames.len(),
        ticks_increasing(changed_keyframes(frames)),
        forall|k: int| 0 <= k < changed_keyframes(frames).len()
            ==> #[trigger] changed_keyframes(frames)[k].angle_tick < frames.len(),
    decreases frames.len(),
{
    if frames.len() > 0 {
        lemma_changed_keyframes_shape(frames.drop_last());
    }
}

proof fn lemma_changed_keyframes_rows(frames: Seq<Frame>, angle: int)
    requires
        frames.len() <= 65536,
        0 <= angle,
        forall|i: int| 0 <= i < frames.len() ==> (#[trigger] frames[i])@.len() == 16,
    ensures
        rows_at(changed_keyframes(frames), angle) == (if frames.len() == 0 {
            blank_rows()
        } else if angle < frames.len() {
            frames[angle]@
        } else {
            frames[frames.len() - 1]@
        }),
    decreases frames.len(),
{
    if frames.len() > 0 {
        let n = frames.len() - 1;
        let init = frames.drop_last();
        lemma_changed_keyframes_rows(init, angle);
        lemma_changed_keyframes_shape(init);
        let prefix = changed_keyframes(init);
        if frames[n]@ != previous_rows(frames, n) {
            let kf = Keyframe { angle_tick: n as u16, frame: frames[n] };
            assert(changed_keyframes(frames) == prefix.push(kf));
            assert(prefix.push(kf).drop_last() =~= prefix);
            assert(prefix.push(kf).last() == kf);
            if angle < n {
                assert(init[angle] == frames[angle]);
            }
        } else {
            assert(changed_keyframes(frames) == prefix);
            if n == 0 {
                assert(frames[0]@ =~= blank_rows());
            } else {
                assert(init[n - 1] == frames[n - 1]);
                if angle < n {
                    assert(init[angle] == frames[angle]);
                }
            }
        }
    }
}

/// Reconstruction: for a revolution of at most 65536 frames, the keyframes
/// recorded by `frames_to_page` show, at every recorded angle, exactly the
/// frame that was recorded there.
pub proof fn lemma_keyframes_reconstruct_frames(frames: Seq<Frame>, angle: int)
    requires
        frames.len() <= 65536,
        0 <= angle < frames.len(),
    ensures
        rows_at(changed_keyframes(frames), angle) == frames[angle]@,
{
    lemma_changed_keyframes_rows(frames, angle);
}

/// The keyframes recorded for a revolution of at most 65536 frames have
/// strictly increasing ticks.
pub proof fn lemma_changed_keyframes_increasing(frames: Seq<Frame>)
    requires
        frames.len() <= 65536,
    ensures
        ticks_increasing(changed_keyframes(frames)),
{
    lemma_changed_keyframes_shape(frames);
}

/// Whether two frames hold the same rows.
pub fn frames_equal(a: &Frame, b: &Frame) -> (same: bool)
    ensures
        same == (a@ == b@),
{
    let mut i: usize = 0;
    while i < 16
        invariant
            0 <= i <= 16,
            forall|k: int| 0 <= k < i ==> a@[k] == b@[k],
        decreases 16 - i,
    {
        if a[i] != b[i] {
            return false;
        }
        i += 1;
    }
    assert(a@ =~= b@);
    true
}

/// One revolution of frames → a page holding only the frames that change.
pub fn frames_to_page(frames: &[Frame]) -> (page: Page)
    ensures
        page.keyframes@ == changed_keyframes(frames@),
        frames@.len() <= 65536 ==> ticks_increasing(page.keyframes@),
        page.keyframes@.len() <= frames@.len(),
{
    let mut keyframes: Vec<Keyframe> = Vec::new();
    let mut prev: Frame = [0u16; 16];
    let mut tick: usize = 0;
    assert(prev@ =~= blank_rows());
    while tick < frames.len()
        invariant
            0 <= tick <= frames@.len(),
            keyframes@ == changed_keyframes(frames@.subrange(0, tick as int)),
            prev@ == previous_rows(frames@, tick as int),
        decreases frames@.len() - tick,
    {
        let frame = frames[tick];
        let ghost before = frames@.subrange(0, tick as int);
        let ghost after = frames@.subrange(0, tick + 1);
        assert(after.drop_last() =~= before);
        if tick > 0 {
            assert(after[tick - 1] == frames@[tick - 1]);
        }
        if !frames_equal(&frame, &prev) {
            keyframes.push(Keyframe { angle_tick: tick as u16, frame });
            prev = frame;
        }
        tick += 1;
    }
    assert(frames@.subrange(0, frames@.len() as int) =~= frames@);
    proof {
        lemma_changed_keyframes_shape_len(frames@);
        if frames@.len() <= 65536 {
            lemma_changed_keyframes_shape(frames@);
        }
    }
    Page { keyframes }
}

proof fn lemma_changed_keyframes_shape_len(frames: Seq<Frame>)
    ensures
        changed_keyframes(frames).len() <= frames.len(),
    decreases frames.len(),
{
    if frames.len() > 0 {
        lemma_changed_keyframes_shape_len(frames.drop_last());
    }
}

} // verus!
