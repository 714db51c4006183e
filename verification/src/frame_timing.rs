use vstd::prelude::*;

verus! {

/// The frame rate animations aim for.
pub const TARGET_FRAME_RATE: u32 = 240;

/// One frame at the target rate, in microseconds.
pub const TARGET_FRAME_MICROS: u64 = 4166;

/// The longest step one animation frame may take, in microseconds.
pub const MAX_ANIMATION_FRAME_MICROS: u64 = 16000;

/// How long an animation frame lasts, in microseconds: the time that really
/// elapsed (one target frame when unknown), held between one target frame
/// and the longest step.
pub fn animation_frame_duration(elapsed_micros: Option<u64>) -> (r: u64)
    ensures
        TARGET_FRAME_MICROS <= r <= MAX_ANIMATION_FRAME_MICROS,
        match elapsed_micros {
            Some(e) => r == (if e < TARGET_FRAME_MICROS {
                TARGET_FRAME_MICROS
            } else if e > MAX_ANIMATION_FRAME_MICROS {
                MAX_ANIMATION_FRAME_MICROS
            } else {
                e
            }),
            None => r == TARGET_FRAME_MICROS,
        },
{
    let elapsed = match elapsed_micros {
        Some(e) => e,
        None => TARGET_FRAME_MICROS,
    };
    if elapsed < TARGET_FRAME_MICROS {
        TARGET_FRAME_MICROS
    } else if elapsed > MAX_ANIMATION_FRAME_MICROS {
        MAX_ANIMATION_FRAME_MICROS
    } else {
        elapsed
    }
}

/// One target frame is a whole number of microseconds no longer than the
/// target rate allows.
pub proof fn law_target_frame_fits_rate()
    ensures
        TARGET_FRAME_MICROS * (TARGET_FRAME_RATE as int) <= 1_000_000 < (TARGET_FRAME_MICROS + 1) * (
        TARGET_FRAME_RATE as int),
{
}

} // verus!
