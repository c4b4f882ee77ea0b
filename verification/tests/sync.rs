use nds_hal::cell::NdsCell;
use nds_hal::mutex::NdsMutex;

#[test]
fn cell_round_trips_every_width() {
    let mut c8: NdsCell<u8> = NdsCell::new(0);
    c8.write(0xAB);
    assert_eq!(c8.read(), 0xAB);

    let mut c16: NdsCell<u16> = NdsCell::new(0);
    c16.write(0xBEEF);
    assert_eq!(c16.read(), 0xBEEF);

    let mut c32: NdsCell<u32> = NdsCell::new(0);
    c32.write(0xDEAD_BEEF);
    assert_eq!(c32.read(), 0xDEAD_BEEF);

    let mut ci8: NdsCell<i8> = NdsCell::new(0);
    ci8.write(-100);
    assert_eq!(ci8.read(), -100);

    let mut ci16: NdsCell<i16> = NdsCell::new(0);
    ci16.write(-30000);
    assert_eq!(ci16.read(), -30000);

    let mut ci32: NdsCell<i32> = NdsCell::new(0);
    ci32.write(-2_000_000_000);
    assert_eq!(ci32.read(), -2_000_000_000);

    let mut cb: NdsCell<bool> = NdsCell::new(false);
    cb.write(true);
    assert_eq!(cb.read(), true);

    let mut cc: NdsCell<char> = NdsCell::new('a');
    cc.write('Z');
    assert_eq!(cc.read(), 'Z');
}

#[test]
fn exchange_returns_the_prior_value_and_stores_the_new_one() {
    let mut c: NdsCell<u32> = NdsCell::new(7);
    let prev = c.swap(42);
    assert_eq!(prev, 7);
    assert_eq!(c.read(), 42);
    let prev2 = c.swap(1);
    assert_eq!(prev2, 42);
    assert_eq!(c.read(), 1);
}

#[test]
fn exactly_one_context_wins_a_test_and_set() {
    // A foreground context and a simulated interrupt context both try to
    // claim the same flag with an atomic exchange; exactly one of them
    // observes the prior `false` and wins.
    let mut flag: NdsCell<bool> = NdsCell::new(false);
    let foreground_won = !flag.swap(true);
    let interrupt_won = !flag.swap(true);
    assert!(foreground_won);
    assert!(!interrupt_won);
    assert_eq!(flag.read(), true);
}

#[test]
fn mutex_try_lock_fails_while_a_guard_is_alive() {
    let mut m: NdsMutex<i32> = NdsMutex::new(0);
    let guard = m.lock();
    assert_eq!(guard.data, 0);
    assert!(m.try_lock().is_none());
    m.unlock(guard);
    let second = m.try_lock();
    assert!(second.is_some());
    m.unlock(second.unwrap());
}

#[test]
fn mutex_payload_survives_lock_cycles() {
    let mut m: NdsMutex<u32> = NdsMutex::new(11);
    let mut guard = m.lock();
    assert_eq!(guard.data, 11);
    guard.data = 99;
    m.unlock(guard);
    let guard2 = m.lock();
    assert_eq!(guard2.data, 99);
    m.unlock(guard2);
}

#[test]
fn mutex_try_lock_succeeds_on_a_fresh_mutex() {
    let mut m: NdsMutex<&str> = NdsMutex::new("payload");
    let g = m.try_lock().unwrap();
    assert_eq!(g.data, "payload");
    assert!(m.try_lock().is_none());
    m.unlock(g);
}
