use tuilib::event::{Debouncer, Throttle};

const MS: u64 = 1000000;

#[test]
fn test_debouncer_creation() {
    let debouncer = Debouncer::new(100 * MS);
    assert_eq!(debouncer.delay(), 100 * MS);
}

#[test]
fn test_debouncer_default() {
    let debouncer = Debouncer::default();
    assert_eq!(debouncer.delay(), 50 * MS);
}

#[test]
fn test_debouncer_first_call_allowed() {
    let mut debouncer = Debouncer::new(100 * MS);
    assert!(debouncer.should_process(0));
}

#[test]
fn test_debouncer_immediate_second_call_blocked() {
    let mut debouncer = Debouncer::new(100 * MS);
    assert!(debouncer.should_process(0));
    assert!(!debouncer.should_process(0));
}

#[test]
fn test_debouncer_after_delay_allowed() {
    let mut debouncer = Debouncer::new(10 * MS);
    assert!(debouncer.should_process(0));
    assert!(debouncer.should_process(15 * MS));
}

#[test]
fn test_debouncer_reset() {
    let mut debouncer = Debouncer::new(100 * MS);
    assert!(debouncer.should_process(0));
    assert!(!debouncer.should_process(1));
    debouncer.reset();
    assert!(debouncer.should_process(2));
}

#[test]
fn test_debouncer_set_delay() {
    let mut debouncer = Debouncer::new(100 * MS);
    debouncer.set_delay(200 * MS);
    assert_eq!(debouncer.delay(), 200 * MS);
}

#[test]
fn test_debouncer_time_since_last() {
    let mut debouncer = Debouncer::new(100 * MS);
    assert!(debouncer.time_since_last(0).is_none());
    debouncer.should_process(0);
    let elapsed = debouncer.time_since_last(5 * MS).unwrap();
    assert!(elapsed >= 5 * MS);
}

#[test]
fn test_debouncer_remaining() {
    let mut debouncer = Debouncer::new(100 * MS);
    assert_eq!(debouncer.remaining(0), 0);
    debouncer.should_process(0);
    let remaining = debouncer.remaining(1);
    assert!(remaining > 0);
    assert!(remaining <= 100 * MS);
}

#[test]
fn test_throttle_creation() {
    let throttle = Throttle::new(100 * MS);
    assert_eq!(throttle.interval(), 100 * MS);
}

#[test]
fn test_throttle_from_rate() {
    let throttle = Throttle::from_rate(10);
    assert_eq!(throttle.interval(), 100 * MS);
}

#[test]
fn test_throttle_default() {
    let throttle = Throttle::default();
    // Sixty per second is a hair under 17 milliseconds.
    assert!(throttle.interval() > 16 * MS);
    assert!(throttle.interval() < 17 * MS);
}

#[test]
fn test_throttle_first_call_allowed() {
    let mut throttle = Throttle::new(100 * MS);
    assert!(throttle.should_process(0));
}

#[test]
fn test_throttle_immediate_second_call_blocked() {
    let mut throttle = Throttle::new(100 * MS);
    assert!(throttle.should_process(0));
    assert!(!throttle.should_process(0));
}

#[test]
fn test_throttle_after_interval_allowed() {
    let mut throttle = Throttle::new(10 * MS);
    assert!(throttle.should_process(0));
    assert!(throttle.should_process(15 * MS));
}

#[test]
fn test_throttle_reset() {
    let mut throttle = Throttle::new(100 * MS);
    assert!(throttle.should_process(0));
    assert!(!throttle.should_process(1));
    throttle.reset();
    assert!(throttle.should_process(2));
}

#[test]
fn test_throttle_set_interval() {
    let mut throttle = Throttle::new(100 * MS);
    throttle.set_interval(200 * MS);
    assert_eq!(throttle.interval(), 200 * MS);
}

#[test]
fn test_throttle_time_since_last() {
    let mut throttle = Throttle::new(100 * MS);
    assert!(throttle.time_since_last(0).is_none());
    throttle.should_process(0);
    let elapsed = throttle.time_since_last(5 * MS).unwrap();
    assert!(elapsed >= 5 * MS);
}

#[test]
fn test_throttle_remaining() {
    let mut throttle = Throttle::new(100 * MS);
    assert_eq!(throttle.remaining(0), 0);
    throttle.should_process(0);
    let remaining = throttle.remaining(1);
    assert!(remaining > 0);
    assert!(remaining <= 100 * MS);
}

#[test]
fn test_debouncer_debug() {
    let debouncer = Debouncer::new(100 * MS);
    let debug_str = format!("{:?}", debouncer);
    assert!(debug_str.contains("Debouncer"));
    assert!(debug_str.contains("delay"));
}

#[test]
fn test_throttle_debug() {
    let throttle = Throttle::new(100 * MS);
    let debug_str = format!("{:?}", throttle);
    assert!(debug_str.contains("Throttle"));
    assert!(debug_str.contains("interval"));
}

#[test]
fn test_debouncer_clone() {
    let debouncer = Debouncer::new(100 * MS);
    let cloned = debouncer.clone();
    assert_eq!(debouncer.delay(), cloned.delay());
}

#[test]
fn test_throttle_clone() {
    let throttle = Throttle::new(100 * MS);
    let cloned = throttle.clone();
    assert_eq!(throttle.interval(), cloned.interval());
}
