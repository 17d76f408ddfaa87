use esp_examples::delay::{
    button_pressed, next_blink_delay, shorten_delay, CyclingDelay, BLINK_DELAY_START,
    ISR_DELAY_START, ISR_DELAY_STEP, POLL_LOOP_START, POLL_LOOP_STEP, TIMER_PERIOD_START_MS,
    TIMER_PERIOD_STEP_MS,
};

#[test]
fn blink_delay_counts_down_then_restarts() {
    assert_eq!(next_blink_delay(200), 150);
    assert_eq!(next_blink_delay(150), 100);
    assert_eq!(next_blink_delay(100), 50);
    assert_eq!(next_blink_delay(50), 200);
}

#[test]
fn blink_delay_at_or_below_one_step_restarts() {
    assert_eq!(next_blink_delay(0), BLINK_DELAY_START);
    assert_eq!(next_blink_delay(10), 200);
    assert_eq!(next_blink_delay(51), 1);
}

#[test]
fn blink_delay_period_is_four_presses() {
    let mut d = BLINK_DELAY_START;
    for _ in 0..4 {
        d = next_blink_delay(d);
    }
    assert_eq!(d, BLINK_DELAY_START);
}

#[test]
fn button_not_pressed_keeps_delay() {
    assert_eq!(button_pressed(false, 150), 150);
    assert_eq!(button_pressed(true, 150), 100);
    assert_eq!(button_pressed(true, 50), 200);
}

#[test]
fn shorten_delay_reloads_below_one_step() {
    assert_eq!(shorten_delay(2000, 500, 2000), 1500);
    assert_eq!(shorten_delay(500, 500, 2000), 2000);
    assert_eq!(shorten_delay(700, 500, 2000), 2000);
    assert_eq!(shorten_delay(1000, 500, 2000), 500);
}

#[test]
fn interrupt_delay_cycles_with_period_four() {
    let mut d = CyclingDelay::new(ISR_DELAY_STEP, ISR_DELAY_START);
    let mut seen = vec![d.value()];
    for _ in 0..4 {
        d.press();
        seen.push(d.value());
    }
    assert_eq!(seen, vec![2000, 1500, 1000, 500, 2000]);
}

#[test]
fn poll_loop_cycles_with_period_four() {
    let mut d = CyclingDelay::new(POLL_LOOP_STEP, POLL_LOOP_START);
    let mut seen = vec![d.value()];
    for _ in 0..4 {
        d.press();
        seen.push(d.value());
    }
    assert_eq!(seen, vec![100_000, 75_000, 50_000, 25_000, 100_000]);
}

#[test]
fn timer_period_cycles_with_period_two() {
    let mut d = CyclingDelay::new(TIMER_PERIOD_STEP_MS, TIMER_PERIOD_START_MS);
    d.press();
    assert_eq!(d.value(), 1000);
    d.press();
    assert_eq!(d.value(), 2000);
}

#[test]
fn cycling_delay_never_leaves_its_cycle() {
    let mut d = CyclingDelay::new(ISR_DELAY_STEP, ISR_DELAY_START);
    for _ in 0..1000 {
        d.press();
        let v = d.value();
        assert!(v >= 500 && v <= 2000 && v % 500 == 0);
    }
}

#[test]
fn cycling_delay_with_step_not_dividing_reload() {
    let mut d = CyclingDelay::new(300, 1000);
    let mut seen = vec![d.value()];
    for _ in 0..4 {
        d.press();
        seen.push(d.value());
    }
    assert_eq!(seen, vec![1000, 700, 400, 1000, 700]);
}
