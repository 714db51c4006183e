use chelotype::frame_timing::{
    animation_frame_duration, MAX_ANIMATION_FRAME_MICROS, TARGET_FRAME_MICROS, TARGET_FRAME_RATE,
};

#[test]
fn target_frame_duration_tracks_240_hz_budget() {
    assert_eq!(TARGET_FRAME_RATE, 240);
    assert_eq!(TARGET_FRAME_MICROS, 4166);
    assert_eq!(TARGET_FRAME_MICROS, 1_000_000 / TARGET_FRAME_RATE as u64);
}

#[test]
fn animation_frame_duration_uses_real_elapsed_time_with_bounds() {
    assert_eq!(animation_frame_duration(None), TARGET_FRAME_MICROS);
    assert_eq!(animation_frame_duration(Some(500)), TARGET_FRAME_MICROS);
    assert_eq!(animation_frame_duration(Some(9_000)), 9_000);
    assert_eq!(
        animation_frame_duration(Some(40_000)),
        MAX_ANIMATION_FRAME_MICROS
    );
    assert_eq!(MAX_ANIMATION_FRAME_MICROS, 16_000);
}
