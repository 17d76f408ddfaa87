use esp_examples::pulse::{echo_distance_cm, pulse_width_ms, EdgeAction, Level, PulseTracker};

#[test]
fn pulse_width_in_whole_milliseconds() {
    assert_eq!(pulse_width_ms(1000, 5000), 4);
    assert_eq!(pulse_width_ms(0, 999), 0);
    assert_eq!(pulse_width_ms(7, 7), 0);
    assert_eq!(pulse_width_ms(1_000_000, 3_500_000), 2500);
}

#[test]
fn tracker_restarts_on_rise_and_reads_on_fall() {
    let mut t = PulseTracker::new(Level::Low);
    assert_eq!(t.poll(Level::Low), EdgeAction::Nothing);
    assert_eq!(t.poll(Level::High), EdgeAction::RestartCounter);
    assert_eq!(t.poll(Level::High), EdgeAction::Nothing);
    assert_eq!(t.poll(Level::Low), EdgeAction::ReadCounter);
    t.capture(25_400);
    assert_eq!(t.width_ms(), 25);
    assert_eq!(t.poll(Level::Low), EdgeAction::Nothing);
    assert_eq!(t.width_ticks, 25_400);
}

#[test]
fn tracker_starting_high_waits_for_fall() {
    let mut t = PulseTracker::new(Level::High);
    assert_eq!(t.poll(Level::High), EdgeAction::Nothing);
    assert_eq!(t.poll(Level::Low), EdgeAction::ReadCounter);
    assert_eq!(t.last_level, Level::Low);
}

#[test]
fn echo_distance_examples() {
    assert_eq!(echo_distance_cm(0, 928), 1);
    assert_eq!(echo_distance_cm(100, 100 + 928 * 20), 20);
    assert_eq!(echo_distance_cm(0, 927), 0);
}

#[test]
fn echo_distance_across_timer_wrap() {
    let start = u64::MAX - 99;
    let end = 828;
    assert_eq!(echo_distance_cm(start, end), 1);
}

#[test]
fn echo_distance_is_monotonic_and_one_division() {
    let mut last = 0;
    for dur in (0u64..20_000).step_by(37) {
        let d = echo_distance_cm(0, dur);
        assert_eq!(d, dur / 928);
        assert!(d >= last);
        last = d;
    }
}

#[test]
fn steady_clock_readings_measure_every_pulse() {
    let readings = [5u64, 1005, 1005, 4005, 9000, 9999];
    let widths: Vec<u64> = readings.chunks(2).map(|p| pulse_width_ms(p[0], p[1])).collect();
    assert_eq!(widths, vec![1, 3, 0]);
}
