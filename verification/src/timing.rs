//! How many frames a fade of a given duration has at a given frame rate.

use vstd::prelude::*;

verus! {

/// The number of nanoseconds in a second.
pub const NANOS_PER_SECOND: u64 = 1_000_000_000;

/// Why a duration and a frame rate give no frame count.
#[derive(Clone, Copy, Debug, PartialEq, Eq, Structural)]
pub enum TimingError {
    /// The duration is zero nanoseconds.
    ZeroDuration,
    /// The frame rate is zero.
    ZeroFramerate,
    /// The number of frames cannot be counted in a `usize`.
    TooManyFrames,
}

/// The number of frames that cover `duration_nanos` nanoseconds at
/// `framerate` frames per second: duration times rate, rounded up to a whole
/// frame.
pub open spec fn frames_needed(duration_nanos: int, framerate: int) -> int {
    (duration_nanos * framerate + (NANOS_PER_SECOND - 1)) / (NANOS_PER_SECOND as int)
}

/// The number of frames of a fade that lasts `duration_nanos` nanoseconds at
/// `framerate` frames per second. Durations are counted in whole nanoseconds.
/// Duration and frame rate must both be positive; the count is then at least
/// one.
pub fn frame_count(duration_nanos: u64, framerate: u32) -> (count: Result<usize, TimingError>)
    ensures
        match count {
            Ok(n) => {
                &&& 0 < duration_nanos
                &&& 0 < framerate
                &&& n == frames_needed(duration_nanos as int, framerate as int)
                &&& (n - 1) * NANOS_PER_SECOND < duration_nanos * framerate <= n
                    * NANOS_PER_SECOND
                &&& 1 <= n
            },
            Err(TimingError::ZeroDuration) => duration_nanos == 0,
            Err(TimingError::ZeroFramerate) => 0 < duration_nanos && framerate == 0,
            Err(TimingError::TooManyFrames) => {
                &&& 0 < duration_nanos
                &&& 0 < framerate
                &&& frames_needed(duration_nanos as int, framerate as int) > usize::MAX
            },
        },
{
    if duration_nanos == 0 {
        return Err(TimingError::ZeroDuration);
    }
    if framerate == 0 {
        return Err(TimingError::ZeroFramerate);
    }
    proof {
        lemma_frames_needed_rounds_up(duration_nanos as int, framerate as int);
        assert(duration_nanos as int * framerate as int <= 0xffff_ffff_ffff_ffff * 0xffff_ffff)
            by (nonlinear_arith)
            requires
                0 <= duration_nanos as int <= 0xffff_ffff_ffff_ffff,
                0 <= framerate as int <= 0xffff_ffff,
        ;
    }
    let frame_nanos: u128 = (duration_nanos as u128) * (framerate as u128);
    let frames: u128 = (frame_nanos + (NANOS_PER_SECOND as u128 - 1)) / (NANOS_PER_SECOND as u128);
    if frames > usize::MAX as u128 {
        return Err(TimingError::TooManyFrames);
    }
    Ok(frames as usize)
}

/// Rounding up: `frames_needed` is the least number of whole frames whose
/// time, at `framerate` frames per second, is no shorter than the duration.
pub proof fn lemma_frames_needed_rounds_up(duration_nanos: int, framerate: int)
    requires
        0 <= duration_nanos,
        0 <= framerate,
    ensures
        ({
            let n = frames_needed(duration_nanos, framerate);
            &&& (n - 1) * NANOS_PER_SECOND < duration_nanos * framerate
            &&& duration_nanos * framerate <= n * NANOS_PER_SECOND
            &&& (0 < duration_nanos && 0 < framerate ==> 1 <= n)
        }),
{
    let product = duration_nanos * framerate;
    assert(0 <= product) by (nonlinear_arith)
        requires
            0 <= duration_nanos,
            0 <= framerate,
            product == duration_nanos * framerate,
    ;
    assert(0 < duration_nanos && 0 < framerate ==> 1 <= product) by (nonlinear_arith)
        requires
            product == duration_nanos * framerate,
    ;
}

} // verus!
