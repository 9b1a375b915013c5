use std::time::Duration;
use wgpu_3d_viewer::timing::{FrameTimingManager, FRAME_HISTORY_SIZE};

const MS: u64 = 1_000_000;

fn target_for_fps(fps: u32) -> u64 {
    Duration::from_secs_f32(1.0 / fps as f32).as_nanos() as u64
}

#[test]
fn test_frame_timing_basic() {
    let mut manager = FrameTimingManager::new(target_for_fps(90), 0);

    let mut now = 0u64;
    for i in 0..5i64 {
        let display_time = i * 11_111_111;
        manager.begin_frame(display_time, now);
        now += 10 * MS;
        manager.end_frame(now);
    }

    manager.force_stats_update(now);

    let stats = manager.get_stats().expect("stats after five frames");
    let average = Duration::from_nanos(stats.average_frame_time as u64);
    let fps = 1.0 / average.as_secs_f32();
    let average_ms = average.as_secs_f32() * 1000.0;
    assert!(fps > 0.0, "FPS should be greater than 0");
    assert!(average_ms > 0.0, "Average frame time should be greater than 0");
    assert_eq!(manager.frame_counter(), 5, "Should have counted 5 frames");
}

#[test]
fn test_frame_timing_prediction() {
    let mut manager = FrameTimingManager::new(target_for_fps(90), 0);

    let initial_time = 1_000_000_000i64;
    manager.begin_frame(initial_time, 0);
    manager.end_frame(MS);

    let predicted = manager.predict_next_frame_time().unwrap();
    assert!(predicted > initial_time, "Predicted time should be after initial time");

    let diff_nanos = predicted - initial_time;
    let expected_nanos = (1.0 / 90.0 * 1_000_000_000.0) as i64;
    let tolerance = 1_000_000;
    assert!(
        (diff_nanos - expected_nanos).abs() < tolerance,
        "Prediction should be approximately 1/90 second in the future"
    );
}

#[test]
fn test_frame_timing_stats() {
    let mut manager = FrameTimingManager::new(target_for_fps(90), 0);

    let timings = [5u64, 10, 15, 10, 5];
    let mut now = 0u64;
    for (i, &ms) in timings.iter().enumerate() {
        let display_time = i as i64 * 11_111_111;
        manager.begin_frame(display_time, now);
        now += ms * MS;
        manager.end_frame(now);
    }

    manager.force_stats_update(now);

    let stats = manager.get_stats().unwrap();
    let average_secs = Duration::from_nanos(stats.average_frame_time as u64).as_secs_f32();
    let variance: f32 = stats
        .frame_times
        .iter()
        .map(|t| {
            let diff = Duration::from_nanos(*t).as_secs_f32() - average_secs;
            diff * diff
        })
        .sum::<f32>()
        / stats.frame_times.len() as f32;
    let variance_ms = (variance * 1000.0 * 1000.0).sqrt();
    assert!(variance_ms > 0.0, "Should have non-zero variance with varying frame times");
    assert!(
        stats.max_frame_time as u128 >= stats.average_frame_time,
        "Max frame time should be >= average"
    );
    assert!(
        stats.min_frame_time as u128 <= stats.average_frame_time,
        "Min frame time should be <= average"
    );
}

#[test]
fn stats_exact_values() {
    let target = 11_111_111u64;
    let mut manager = FrameTimingManager::new(target, 0);
    let timings = [5u64, 10, 15, 10, 5];
    let mut now = 0u64;
    for (i, &ms) in timings.iter().enumerate() {
        manager.begin_frame(i as i64, now);
        now += ms * MS;
        manager.end_frame(now);
    }
    manager.force_stats_update(now);
    let stats = manager.get_stats().unwrap();
    assert_eq!(stats.frame_times, vec![5 * MS, 10 * MS, 15 * MS, 10 * MS, 5 * MS]);
    assert_eq!(stats.total_frame_time, 45 * MS as u128);
    assert_eq!(stats.average_frame_time, 9 * MS as u128);
    assert_eq!(stats.max_frame_time, 15 * MS);
    assert_eq!(stats.min_frame_time, 5 * MS);
    // Only the 15 ms frame is over the 11.1 ms budget.
    assert_eq!(stats.dropped_frames, 1);
}

#[test]
fn stats_average_rounds_down() {
    let mut manager = FrameTimingManager::new(1_000, 0);
    let times = [1u64, 2, 2];
    let mut now = 0u64;
    for (i, &t) in times.iter().enumerate() {
        manager.begin_frame(i as i64, now);
        now += t;
        manager.end_frame(now);
    }
    manager.force_stats_update(now);
    let stats = manager.get_stats().unwrap();
    assert_eq!(stats.total_frame_time, 5);
    assert_eq!(stats.average_frame_time, 1);
}

#[test]
fn stats_wait_a_second() {
    let mut manager = FrameTimingManager::new(11_111_111, 0);
    manager.begin_frame(0, 0);
    manager.end_frame(10 * MS);
    assert!(manager.get_stats().is_none());
    manager.begin_frame(1, 10 * MS);
    manager.end_frame(1_000_000_000);
    let stats = manager.get_stats().expect("a second has passed");
    assert_eq!(stats.frame_times.len(), 2);
    // The next refresh is due one second after this one.
    manager.begin_frame(2, 1_000_000_000);
    manager.end_frame(1_500_000_000);
    assert_eq!(manager.get_stats().unwrap().frame_times.len(), 2);
}

#[test]
fn no_stats_without_frames() {
    let mut manager = FrameTimingManager::new(11_111_111, 0);
    manager.force_stats_update(5);
    assert!(manager.get_stats().is_none());
    manager.end_frame(10);
    assert_eq!(manager.frame_counter(), 0);
    assert_eq!(manager.predict_next_frame_time(), None);
    assert_eq!(manager.get_frame_to_photon_latency(), None);
}

#[test]
fn history_keeps_latest_frames() {
    let mut manager = FrameTimingManager::new(11_111_111, 0);
    let total = FRAME_HISTORY_SIZE as u64 + 30;
    for i in 0..total {
        manager.begin_frame(i as i64, i * 100);
        manager.end_frame(i * 100 + 1 + i);
    }
    assert_eq!(manager.frame_counter(), total);
    manager.force_stats_update(total * 100);
    let stats = manager.get_stats().unwrap();
    assert_eq!(stats.frame_times.len(), FRAME_HISTORY_SIZE);
    // The oldest frame kept is frame 30, whose render time was 31 ns.
    assert_eq!(stats.frame_times[0], 31);
    assert_eq!(stats.min_frame_time, 31);
    assert_eq!(stats.max_frame_time, total);
}

#[test]
fn prediction_prefers_current_frame() {
    let mut manager = FrameTimingManager::new(1_000, 0);
    manager.begin_frame(5_000, 0);
    assert_eq!(manager.predict_next_frame_time(), Some(6_000));
    manager.end_frame(10);
    manager.begin_frame(9_000, 20);
    assert_eq!(manager.predict_next_frame_time(), Some(10_000));
    manager.end_frame(30);
    assert_eq!(manager.predict_next_frame_time(), Some(10_000));
}

#[test]
fn frame_to_photon_latency() {
    let mut manager = FrameTimingManager::new(1_000, 0);
    manager.begin_frame(2_000_000, 100);
    assert_eq!(manager.get_frame_to_photon_latency(), None);
    manager.end_frame(350);
    assert_eq!(manager.get_frame_to_photon_latency(), Some(2_000_250));
    // A negative display time is read as an unsigned nanosecond count.
    manager.begin_frame(-1, 400);
    manager.end_frame(401);
    assert_eq!(manager.get_frame_to_photon_latency(), Some(u64::MAX as u128 + 1));
}

#[test]
fn render_time_saturates() {
    let mut manager = FrameTimingManager::new(1_000, 0);
    manager.begin_frame(0, 500);
    manager.end_frame(200);
    manager.force_stats_update(1_000);
    assert_eq!(manager.get_stats().unwrap().frame_times, vec![0]);
}
