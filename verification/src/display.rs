//! The display driver: picks the frame for the current angle and hands it
//! to a frame writer, once per poll of the encoder.

use vstd::prelude::*;
use crate::frame::FrameBytes;
use crate::pool::{ANGLE_STEPS, AnimationPool, PoolModel, blank_bytes, frame_candidate, next_rev};

verus! {

/// Receives 32-byte frames. Implementations should only start the
/// transfer (for example by DMA) and return at once.
pub trait FrameWriter {
    type Error;

    /// Whether this writer, having been `before`, has been handed `data`.
    /// Writers that keep no record of what they were handed leave it true.
    open spec fn received(&self, before: &Self, data: Seq<u8>) -> bool {
        true
    }

    fn write_frame_bytes(&mut self, data: &[u8; 32]) -> (res: Result<(), Self::Error>)
        ensures
            final(self).received(old(self), data@),
    ;
}

/// A writer that discards every frame.
pub struct NullWriter;

impl FrameWriter for NullWriter {
    type Error = ();

    fn write_frame_bytes(&mut self, data: &[u8; 32]) -> (res: Result<(), ()>)
        ensures
            res == Ok::<(), ()>(()),
    {
        Ok(())
    }
}

/// Polled persistence-of-vision display driver.
pub struct PovDisplay<W> {
    writer: W,
    encoder_steps: usize,
}

impl<W> PovDisplay<W> {
    /// The frame writer.
    pub closed spec fn writer(&self) -> W {
        self.writer
    }

    /// The number of encoder steps per revolution.
    pub closed spec fn steps(&self) -> usize {
        self.encoder_steps
    }

    pub fn new(writer: W, encoder_steps: usize) -> (d: Self)
        ensures
            d.writer() == writer,
            d.steps() == encoder_steps,
    {
        PovDisplay { writer, encoder_steps }
    }

    /// The number of encoder steps per revolution.
    pub fn encoder_steps(&self) -> (steps: usize)
        ensures
            steps == self.steps(),
    {
        self.encoder_steps
    }

    pub fn set_steps(&mut self, steps: usize)
        ensures
            final(self).steps() == steps,
            final(self).writer() == old(self).writer(),
    {
        self.encoder_steps = steps;
    }

    /// The writer, for writing frame data directly.
    pub fn writer_mut(&mut self) -> (w: &mut W)
        ensures
            *w == old(self).writer(),
            final(self).writer() == *final(w),
            final(self).steps() == old(self).steps(),
    {
        &mut self.writer
    }
}

impl<W: FrameWriter> PovDisplay<W> {
    /// Writes the frame for angle `angle_idx` (reduced with the mask
    /// `steps - 1`) of the pool's current revolution; does nothing while no
    /// animation is loaded.
    pub fn render_angle(&mut self, pool: &AnimationPool, angle_idx: usize)
        requires
            pool@.loaded ==> old(self).steps() > 0,
        ensures
            final(self).steps() == old(self).steps(),
            !pool@.loaded ==> final(self).writer() == old(self).writer(),
            pool@.loaded ==> exists|b: Seq<u8>|
                frame_candidate(
                    pool@,
                    pool@.rev,
                    (angle_idx & (old(self).steps() - 1) as usize) as int,
                    b,
                ) && #[trigger] final(self).writer().received(&old(self).writer(), b),
    {
        if !pool.has_animation() {
            return;
        }
        let mask = self.encoder_steps - 1;
        let rev = pool.rev_count();
        let frame = pool.get_frame(rev, angle_idx & mask);
        let _ = self.writer.write_frame_bytes(&frame);
        assert(frame_candidate(pool@, rev, (angle_idx & mask) as int, frame@));
        assert(self.writer().received(&old(self).writer(), frame@));
    }

    /// Writes a blank frame.
    pub fn clear(&mut self)
        ensures
            final(self).steps() == old(self).steps(),
            final(self).writer().received(&old(self).writer(), blank_bytes()),
    {
        let blank: FrameBytes = [0u8; 32];
        assert(blank@ =~= blank_bytes());
        let _ = self.writer.write_frame_bytes(&blank);
    }
}

/// Whether the encoder index passed zero between two polls: it fell, and
/// the previous index was in the second half of the revolution.
pub fn revolution_completed(prev_idx: usize, idx: usize, steps: usize) -> (done: bool)
    ensures
        done == (idx < prev_idx && prev_idx > steps / 2),
{
    idx < prev_idx && prev_idx > steps / 2
}

/// One poll of the display loop. While an upload is loading the display
/// is blanked and the caller should wait (`None`); otherwise the
/// revolution counter advances when the encoder index passed zero, the
/// frame for `lut_idx` is written, and `Some(lut_idx)` is the index to
/// compare the next poll with.
pub fn poll_display<W: FrameWriter>(
    display: &mut PovDisplay<W>,
    pool: &mut AnimationPool,
    loading: bool,
    prev_idx: usize,
    lut_idx: usize,
) -> (next_prev: Option<usize>)
    requires
        old(pool)@.loaded ==> old(display).steps() > 0,
    ensures
        final(display).steps() == old(display).steps(),
        loading ==> next_prev is None && final(pool)@ == old(pool)@
            && final(display).writer().received(&old(display).writer(), blank_bytes()),
        !loading ==> next_prev == Some(lut_idx),
        !loading ==> final(pool)@ == (if revolution_completed_spec(prev_idx, lut_idx, ANGLE_STEPS) {
            PoolModel { rev: next_rev(old(pool)@.rev), ..old(pool)@ }
        } else {
            old(pool)@
        }),
        !loading && !final(pool)@.loaded ==> final(display).writer() == old(display).writer(),
        !loading && final(pool)@.loaded ==> exists|b: Seq<u8>|
            frame_candidate(
                final(pool)@,
                final(pool)@.rev,
                (lut_idx & (old(display).steps() - 1) as usize) as int,
                b,
            ) && #[trigger] final(display).writer().received(&old(display).writer(), b),
{
    if loading {
        display.clear();
        return None;
    }
    if revolution_completed(prev_idx, lut_idx, ANGLE_STEPS) {
        pool.increment_rev();
    }
    display.render_angle(pool, lut_idx);
    Some(lut_idx)
}

/// Whether the encoder index passed zero (see `revolution_completed`).
pub open spec fn revolution_completed_spec(prev_idx: usize, idx: usize, steps: usize) -> bool {
    idx < prev_idx && prev_idx > steps / 2
}

} // verus!
