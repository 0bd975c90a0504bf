use openlock::signal::{Signal, SignalMisuseError};

#[test]
fn set_before_get_returns_written_value_consistently() {
    let mut s: Signal<u64> = Signal::create(0);
    assert!(s.set(42).is_ok());
    assert_eq!(s.get(), 42);
    assert_eq!(s.get(), 42);
    assert_eq!(s.get(), 42);
}

#[test]
fn set_after_observed_get_is_rejected() {
    let mut s: Signal<u64> = Signal::create(5);
    assert_eq!(s.get(), 5);
    assert_eq!(s.set(6), Err(SignalMisuseError::WriteAfterRead));
    assert_eq!(s.get(), 5);
}

#[test]
fn second_set_in_one_pass_is_rejected() {
    let mut s: Signal<u64> = Signal::create(0);
    assert!(s.set(1).is_ok());
    assert_eq!(s.set(2), Err(SignalMisuseError::WriteAfterWrite));
    assert_eq!(s.get(), 1);
}
