use tray_pulse::driver::AnimationDriver;
use tray_pulse::metrics::MetricsCache;
use tray_pulse::scheduler::{fps_for_load, frame_index, BASE_FPS, MAX_FPS};

#[test]
fn fps_at_the_ends_of_the_load_range() {
    assert_eq!(fps_for_load(0), 15);
    assert_eq!(fps_for_load(10000), 60);
    assert_eq!(BASE_FPS, 15);
    assert_eq!(MAX_FPS, 60);
}

#[test]
fn fps_is_linear_and_rounds_down() {
    assert_eq!(fps_for_load(5000), 37);
    assert_eq!(fps_for_load(2500), 26);
    assert_eq!(fps_for_load(100), 15);
    assert_eq!(fps_for_load(223), 16);
}

#[test]
fn fps_saturates_above_full_load() {
    assert_eq!(fps_for_load(10001), 60);
    assert_eq!(fps_for_load(u32::MAX), 60);
}

#[test]
fn fps_never_decreases_with_load() {
    let mut prev = fps_for_load(0);
    for bp in 1..=10000u32 {
        let f = fps_for_load(bp);
        assert!(f >= prev);
        assert!(f >= 15 && f <= 60);
        prev = f;
    }
}

#[test]
fn frame_index_formula() {
    // floor(now * fps / 1000) mod n
    assert_eq!(frame_index(0, 15, 32), 0);
    assert_eq!(frame_index(66, 15, 32), 0);
    assert_eq!(frame_index(67, 15, 32), 1);
    assert_eq!(frame_index(1000, 15, 32), 15);
    assert_eq!(frame_index(3000, 15, 32), 45 % 32);
    assert_eq!(frame_index(1_000, 60, 32), 60 % 32);
}

#[test]
fn frame_index_stays_in_range() {
    for n in 1..=40usize {
        for now in [0u64, 1, 999, 123_456_789, u64::MAX] {
            for fps in [0u32, 1, 15, 37, 60, u32::MAX] {
                assert!(frame_index(now, fps, n) < n);
            }
        }
    }
}

#[test]
fn frame_index_is_repeatable() {
    let now = 1_700_000_000_123u64;
    assert_eq!(frame_index(now, 42, 32), frame_index(now, 42, 32));
}

#[test]
fn thirty_two_frames_at_fifteen_fps_advance_fifteen_per_second() {
    let expected = (1000.0f64 / 66.7).floor() as i64 % 32;
    for start in [0u64, 17, 66, 1_000_003, 1_700_000_000_000] {
        let a = frame_index(start, 15, 32) as i64;
        let b = frame_index(start + 1000, 15, 32) as i64;
        let advance = (b - a).rem_euclid(32);
        assert_eq!(advance, 15);
        assert!((advance - expected).abs() <= 1);
    }
}

#[test]
fn thousand_reads_in_two_seconds_refresh_at_most_once() {
    let mut cache = MetricsCache::new(0);
    let mut refreshes = 0;
    for k in 0..1000u64 {
        let now = 1000 + 2 * k;
        if cache.poll_refresh(now) {
            refreshes += 1;
            cache.record(now, 4200);
        }
        let _ = cache.read();
    }
    assert!(refreshes <= 1);
    assert_eq!(refreshes, 1);
}

#[test]
fn refresh_waits_for_the_full_interval() {
    let mut cache = MetricsCache::new(500);
    assert!(!cache.poll_refresh(2499));
    assert!(cache.poll_refresh(2500));
    assert_eq!(cache.last_refresh_ms, 2500);
    assert!(!cache.poll_refresh(4499));
    assert!(!cache.poll_refresh(100));
    assert!(cache.poll_refresh(4500));
}

#[test]
fn cache_reads_zero_until_recorded_and_clamps() {
    let mut cache = MetricsCache::new(10);
    assert_eq!(cache.read().cpu_bp, 0);
    assert_eq!(cache.read().sampled_at_ms, 10);
    cache.record(3000, 12_345);
    assert_eq!(cache.read().cpu_bp, 10000);
    assert_eq!(cache.read().sampled_at_ms, 3000);
    cache.record(2000, 250);
    assert_eq!(cache.read().cpu_bp, 250);
    assert_eq!(cache.read().sampled_at_ms, 3000);
}

#[test]
fn driver_starts_at_base_rate() {
    let d = AnimationDriver::new(32, 1234);
    assert_eq!(d.current_fps, 15);
    assert_eq!(d.last_index, 0);
    assert_eq!(d.frame_count, 32);
    assert_eq!(d.metrics.last_refresh_ms, 1234);
}

#[test]
fn two_ticks_in_one_slot_push_once() {
    let mut d = AnimationDriver::new(32, 0);
    // at 15 fps slot 2 spans [134, 200)
    assert_eq!(d.advance(140), Some(2));
    assert_eq!(d.advance(190), None);
    assert_eq!(d.advance(199), None);
    assert_eq!(d.advance(200), Some(3));
}

#[test]
fn no_push_when_frame_already_shown() {
    let mut d = AnimationDriver::new(32, 0);
    assert_eq!(d.advance(10), None);
    assert_eq!(d.last_index, 0);
}

#[test]
fn delayed_tick_skips_to_the_current_frame() {
    let mut d = AnimationDriver::new(32, 0);
    assert_eq!(d.advance(70), Some(1));
    // the loop stalls for 1.3 s: the next frame is the one for the real time
    let late = 70 + 1300;
    assert_eq!(d.advance(late), Some(frame_index(late, 15, 32)));
    assert_eq!(d.last_index, 20);
}

#[test]
fn load_speeds_up_the_animation() {
    let mut d = AnimationDriver::new(32, 0);
    assert!(!d.sample_due(1999));
    assert!(d.sample_due(2000));
    d.record_load(2000, 10000);
    assert_eq!(d.advance(2100), Some(frame_index(2100, 60, 32)));
    assert_eq!(d.current_fps, 60);
    assert!(!d.sample_due(3999));
    assert!(d.sample_due(4000));
}
