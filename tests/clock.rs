use praborrow::{MonotonicClock, Sovereign};

#[test]
fn clock_does_not_run_backwards() {
    let clock = MonotonicClock::start();
    let a = clock.now_ms();
    let b = clock.now_ms();
    assert!(a <= b);
    let sov = Sovereign::new(3u8);
    assert_eq!(*sov.read(clock.now_ms()).unwrap(), 3);
}
