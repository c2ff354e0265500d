//! Motion presented as a slideshow of stills: which frame shows and for how long.
//!
//! The worker that sleeps, reads the wall clock and applies wallpapers feeds elapsed time
//! into `slideshow_step` and performs the apply it asks for.

use vstd::prelude::*;

use crate::profile::LoopMode;

verus! {

/// Position in a slideshow: the frame shown and the time left on it.
#[derive(Clone, Copy, Debug, PartialEq, Eq, Structural)]
pub struct SlideshowCursor {
    /// Index of the frame being shown.
    pub index: usize,
    /// Milliseconds before the next frame is due.
    pub remaining_ms: u64,
}

/// Time a `Once` slideshow holds its final frame: effectively forever.
pub const HOLD_FINAL_FRAME_MS: u64 = 4_611_686_018_427_387_903;

/// The cursor after moving past frame `index` of frames lasting `delays`.
pub open spec fn advanced(index: int, delays: Seq<u64>, loop_mode: LoopMode) -> SlideshowCursor {
    if index + 1 >= delays.len() {
        match loop_mode {
            LoopMode::Loop => SlideshowCursor { index: 0, remaining_ms: delays[0] },
            LoopMode::Once => SlideshowCursor { index: index as usize, remaining_ms: HOLD_FINAL_FRAME_MS },
        }
    } else {
        SlideshowCursor { index: (index + 1) as usize, remaining_ms: delays[index + 1] }
    }
}

/// Moves to the next frame: wrapping to the first when looping, holding the last otherwise.
pub fn advance_frame(cursor: SlideshowCursor, delays: &[u64], loop_mode: LoopMode) -> (r: SlideshowCursor)
    requires
        cursor.index < delays@.len(),
    ensures
        r == advanced(cursor.index as int, delays@, loop_mode),
        r.index < delays@.len(),
{
    let n = delays.len();
    let next = cursor.index + 1;
    if next >= n {
        match loop_mode {
            LoopMode::Loop => SlideshowCursor { index: 0, remaining_ms: delays[0] },
            LoopMode::Once => SlideshowCursor { index: cursor.index, remaining_ms: HOLD_FINAL_FRAME_MS },
        }
    } else {
        SlideshowCursor { index: next, remaining_ms: delays[next] }
    }
}

/// One worker tick: `delta_ms` of wall time passed. Paused slideshows stand still. When the
/// current frame's time is used up the next frame becomes current, the time that overran is
/// taken off its duration when it fits, and the new frame must be applied.
pub fn slideshow_step(cursor: SlideshowCursor, delays: &[u64], loop_mode: LoopMode, delta_ms: u64, paused: bool) -> (r: (
    SlideshowCursor,
    bool,
))
    requires
        cursor.index < delays@.len(),
    ensures
        r.0.index < delays@.len(),
        paused ==> r == (cursor, false),
        !paused && delta_ms < cursor.remaining_ms ==> r == (
            SlideshowCursor { index: cursor.index, remaining_ms: (cursor.remaining_ms - delta_ms) as u64 },
            false,
        ),
        !paused && delta_ms >= cursor.remaining_ms ==> ({
            let next = advanced(cursor.index as int, delays@, loop_mode);
            let overflow = delta_ms - cursor.remaining_ms;
            &&& r.1
            &&& r.0.index == next.index
            &&& r.0.remaining_ms == if overflow < next.remaining_ms {
                next.remaining_ms - overflow
            } else {
                next.remaining_ms as int
            }
        }),
{
    if paused {
        return (cursor, false);
    }
    if delta_ms >= cursor.remaining_ms {
        let overflow = delta_ms - cursor.remaining_ms;
        let mut next = advance_frame(cursor, delays, loop_mode);
        if overflow < next.remaining_ms {
            next.remaining_ms = next.remaining_ms - overflow;
        }
        (next, true)
    } else {
        (SlideshowCursor { index: cursor.index, remaining_ms: cursor.remaining_ms - delta_ms }, false)
    }
}

} // verus!
