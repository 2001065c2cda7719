use grapes::context::time::TimeInfo;
use grapes::internal::rate::{time_left, Fps, DEFAULT_FPS};

#[test]
fn new_clock_reports_target_as_fps() {
    let t = TimeInfo::new(60);
    assert_eq!(t.get_average_fps(), 60);
    assert_eq!(t.get_average_delta_ms(), 0);
    assert_eq!(t.delta_time_ms(), 0);
}

#[test]
fn record_keeps_delta() {
    let mut t = TimeInfo::new(60);
    assert!(!t.record(16, 16));
    assert_eq!(t.delta_time_ms(), 16);
    assert_eq!(t.get_average_fps(), 60);
    assert_eq!(t.get_average_delta_ms(), 0);
}

#[test]
fn record_sums_up_a_full_second() {
    let mut t = TimeInfo::new(60);
    for i in 1..=49u128 {
        assert!(!t.record(20, i * 20));
    }
    assert!(t.record(20, 1000));
    // fifty frames in the second: 1000 / 50 ms each
    assert_eq!(t.get_average_fps(), 50);
    assert_eq!(t.get_average_delta_ms(), 20);
    // the count starts over
    assert!(t.record(20, 1000));
    assert_eq!(t.get_average_fps(), 1);
}

#[test]
fn second_boundary_is_a_thousand_milliseconds() {
    let mut t = TimeInfo::new(60);
    assert!(!t.record(0, 999));
    assert!(t.record(0, 1000));
    assert!(t.record(0, u128::MAX));
}

#[test]
fn mean_frame_time_rounds_down() {
    let mut t = TimeInfo::new(1000);
    assert!(!t.record(1, 1));
    assert!(!t.record(1, 2));
    assert!(t.record(1, 1000));
    // three frames: 1000 / 3
    assert_eq!(t.get_average_delta_ms(), 333);
    assert_eq!(t.get_average_fps(), 3);
}

#[test]
fn counter_on_target_starts_over() {
    // with a target of 2 the counter reads 1, 0, 1, 0, ...; a second that ends
    // on a zero reports the largest time there is
    let mut t = TimeInfo::new(2);
    assert!(!t.record(1, 1));
    assert!(t.record(1, 1000));
    assert_eq!(t.get_average_delta_ms(), u64::MAX as u128);
    assert_eq!(t.get_average_fps(), 2);
    assert!(t.record(1, 1000));
    assert_eq!(t.get_average_delta_ms(), 1000);
    assert_eq!(t.get_average_fps(), 1);
}

#[test]
fn zero_target_keeps_counter_at_zero() {
    let mut t = TimeInfo::new(0);
    assert!(t.record(5, 2000));
    assert_eq!(t.get_average_delta_ms(), u64::MAX as u128);
    assert_eq!(t.get_average_fps(), 1);
}

#[test]
fn update_counts_a_frame_from_the_clock() {
    let mut t = TimeInfo::new(60);
    t.start();
    let second = t.update();
    // right after the start no second can have gone by
    assert!(!second);
    assert!(t.delta_time_ms() < 1000);
    assert_eq!(t.get_average_fps(), 60);
}

#[test]
fn start_keeps_counters() {
    let mut t = TimeInfo::new(30);
    t.record(7, 7);
    t.start();
    assert_eq!(t.delta_time_ms(), 7);
    assert_eq!(t.get_average_fps(), 30);
}

#[test]
fn fps_defaults_to_sixty() {
    assert_eq!(DEFAULT_FPS, 60);
    assert_eq!(Fps::new().get_target_fps(), 60);
    assert!(Fps::new().is_limited());
}

#[test]
fn fps_set_and_get() {
    let mut f = Fps::with_fps(30);
    assert_eq!(f.get_target_fps(), 30);
    f.set_target_fps(0);
    assert_eq!(f.get_target_fps(), 0);
    assert!(!f.is_limited());
    f.set_target_fps(144);
    assert!(f.is_limited());
}

#[test]
fn time_left_is_the_rest_of_the_frame() {
    assert_eq!(time_left(16_666_667, 10_000_000), Some(6_666_667));
    assert_eq!(time_left(16_666_667, 16_666_667), None);
    assert_eq!(time_left(16_666_667, 20_000_000), None);
    assert_eq!(time_left(0, 0), None);
    assert_eq!(time_left(1, 0), Some(1));
}
