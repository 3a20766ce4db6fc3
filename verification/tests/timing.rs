use std::time::Duration;

use image_fader::{frame_count, TimingError};

fn nanos(seconds: f64) -> u64 {
    let duration = Duration::try_from_secs_f64(seconds).unwrap();
    u64::try_from(duration.as_nanos()).unwrap()
}

#[test]
fn two_seconds_at_ten_frames_per_second() {
    assert_eq!(frame_count(2_000_000_000, 10), Ok(20));
    assert_eq!(frame_count(nanos(2.0), 10), Ok(20));
}

#[test]
fn one_and_a_half_seconds_at_ten_frames_per_second() {
    assert_eq!(frame_count(1_500_000_000, 10), Ok(15));
    assert_eq!(frame_count(nanos(1.5), 10), Ok(15));
}

#[test]
fn one_second_at_two_frames_per_second() {
    assert_eq!(frame_count(1_000_000_000, 2), Ok(2));
}

#[test]
fn a_started_frame_counts_as_a_frame() {
    assert_eq!(frame_count(150_000_000, 10), Ok(2));
    assert_eq!(frame_count(100_000_001, 10), Ok(2));
    assert_eq!(frame_count(100_000_000, 10), Ok(1));
    assert_eq!(frame_count(1, 1), Ok(1));
    assert_eq!(frame_count(333_333_334, 3), Ok(2));
    assert_eq!(frame_count(333_333_333, 3), Ok(1));
}

#[test]
fn the_count_is_the_least_that_covers_the_duration() {
    for nanos in [1u64, 999, 40_000_000, 41_666_667, 1_000_000_000, 2_718_281_828, u64::MAX] {
        for rate in [1u32, 10, 24, 25, 30, 60, 144] {
            let frames = frame_count(nanos, rate).unwrap() as u128;
            let wanted = nanos as u128 * rate as u128;
            assert!(frames >= 1);
            assert!(frames * 1_000_000_000 >= wanted);
            assert!((frames - 1) * 1_000_000_000 < wanted);
        }
    }
}

#[test]
fn decimal_durations_give_the_frames_of_the_decimal() {
    assert_eq!(frame_count(nanos(0.1), 10), Ok(1));
    assert_eq!(frame_count(nanos(0.2), 10), Ok(2));
    assert_eq!(frame_count(nanos(0.3), 10), Ok(3));
    assert_eq!(frame_count(nanos(2.4), 10), Ok(24));
    assert_eq!(frame_count(nanos(0.3333333), 3), Ok(1));
    assert_eq!(frame_count(nanos(0.3333334), 3), Ok(2));
    assert_eq!(frame_count(nanos(0.0000001), 10), Ok(1));
}

#[test]
fn a_duration_is_counted_to_the_nearest_nanosecond() {
    assert_eq!(nanos(0.1), 100_000_000);
    assert_eq!(nanos(0.3333334), 333_333_400);
    assert_eq!(nanos(0.6e-9), 1);
    assert_eq!(nanos(0.4e-9), 0);
    assert_eq!(frame_count(nanos(0.6e-9), 10), Ok(1));
    assert_eq!(frame_count(nanos(0.4e-9), 10), Err(TimingError::ZeroDuration));
}

#[test]
fn a_zero_duration_is_refused() {
    assert_eq!(frame_count(0, 10), Err(TimingError::ZeroDuration));
    assert_eq!(frame_count(0, 0), Err(TimingError::ZeroDuration));
}

#[test]
fn a_zero_frame_rate_is_refused() {
    assert_eq!(frame_count(2_000_000_000, 0), Err(TimingError::ZeroFramerate));
}

#[test]
fn more_frames_than_can_be_counted_are_refused() {
    let frames = u64::MAX as u128 * u32::MAX as u128 / 1_000_000_000;
    let countable = frames < usize::MAX as u128;
    assert_eq!(frame_count(u64::MAX, u32::MAX).is_ok(), countable);
    if !countable {
        assert_eq!(frame_count(u64::MAX, u32::MAX), Err(TimingError::TooManyFrames));
    }
}
