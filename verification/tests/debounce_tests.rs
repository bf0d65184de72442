use usb_monitor_switcher::debounce::{
    CooldownWindow, DebounceGate, COOLDOWN_MILLIS, SETTLE_MILLIS,
};
use usb_monitor_switcher::signal::{
    is_eligible, SIGNAL_DEVICE_ARRIVAL, SIGNAL_NODES_CHANGED, SIGNAL_REMOVE_COMPLETE,
};

#[test]
fn signals_at_zero_one_and_three_seconds() {
    let mut gate = DebounceGate::new(2000);
    let mut answers = Vec::new();
    for now in [0u64, 1000, 3000] {
        let accepted = gate.accept(SIGNAL_NODES_CHANGED, now);
        if accepted {
            gate.record(now);
        }
        answers.push(accepted);
    }
    assert_eq!(answers, vec![true, false, true]);
}

#[test]
fn first_recognized_signal_always_passes() {
    for now in [0u64, 1, 1999, 2000, u64::MAX] {
        for code in [SIGNAL_NODES_CHANGED, SIGNAL_DEVICE_ARRIVAL, SIGNAL_REMOVE_COMPLETE] {
            assert!(DebounceGate::new(2000).accept(code, now));
        }
    }
}

#[test]
fn unrecognized_codes_never_pass() {
    let mut gate = DebounceGate::new(2000);
    for code in [0u64, 1, 6, 8, 0x7FFF, 0x8001, 0x8003, 0x8005, 0x1_0000_0007, u64::MAX] {
        assert!(!is_eligible(code));
        assert!(!gate.accept(code, 0));
        assert!(!gate.accept(code, 1_000_000));
    }
    gate.record(10);
    assert!(!gate.accept(0x8001, 1_000_000));
}

#[test]
fn accept_leaves_the_window_alone() {
    let mut gate = DebounceGate::new(2000);
    assert_eq!(gate.window(), CooldownWindow { last_accepted: None, threshold: 2000 });
    assert!(gate.accept(SIGNAL_DEVICE_ARRIVAL, 500));
    assert_eq!(gate.window(), CooldownWindow { last_accepted: None, threshold: 2000 });
    gate.record(700);
    assert_eq!(gate.window(), CooldownWindow { last_accepted: Some(700), threshold: 2000 });
    assert!(!gate.accept(SIGNAL_DEVICE_ARRIVAL, 800));
    assert!(gate.accept(SIGNAL_DEVICE_ARRIVAL, 5000));
    assert_eq!(gate.window(), CooldownWindow { last_accepted: Some(700), threshold: 2000 });
}

#[test]
fn window_closes_exactly_at_the_threshold() {
    let mut gate = DebounceGate::new(2000);
    gate.record(10_000);
    assert!(!gate.accept(SIGNAL_REMOVE_COMPLETE, 10_000));
    assert!(!gate.accept(SIGNAL_REMOVE_COMPLETE, 11_999));
    assert!(gate.accept(SIGNAL_REMOVE_COMPLETE, 12_000));
    assert!(gate.accept(SIGNAL_REMOVE_COMPLETE, 12_001));
}

#[test]
fn window_is_measured_from_the_recorded_time() {
    let mut gate = DebounceGate::new(2000);
    assert!(gate.accept(SIGNAL_NODES_CHANGED, 0));
    // The cycle took 900 ms: the cooldown starts when it was over.
    gate.record(900);
    assert!(!gate.accept(SIGNAL_NODES_CHANGED, 2000));
    assert!(!gate.accept(SIGNAL_NODES_CHANGED, 2899));
    assert!(gate.accept(SIGNAL_NODES_CHANGED, 2900));
}

#[test]
fn a_clock_that_reads_earlier_counts_as_no_time_gone_by() {
    let mut gate = DebounceGate::new(2000);
    gate.record(10_000);
    assert!(!gate.accept(SIGNAL_NODES_CHANGED, 9_000));
    assert!(!gate.accept(SIGNAL_NODES_CHANGED, 0));
    let mut open = DebounceGate::new(0);
    open.record(10_000);
    assert!(open.accept(SIGNAL_NODES_CHANGED, 9_000));
}

#[test]
fn large_times_do_not_wrap() {
    let mut gate = DebounceGate::new(u64::MAX);
    gate.record(0);
    assert!(!gate.accept(SIGNAL_NODES_CHANGED, u64::MAX - 1));
    assert!(gate.accept(SIGNAL_NODES_CHANGED, u64::MAX));
    gate.record(u64::MAX);
    assert!(!gate.accept(SIGNAL_NODES_CHANGED, u64::MAX));
}

#[test]
fn default_durations() {
    assert_eq!(COOLDOWN_MILLIS, 2000);
    assert_eq!(SETTLE_MILLIS, 500);
}
