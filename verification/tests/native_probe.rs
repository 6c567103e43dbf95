use flowwisper::desktop::hotkey::HotkeyCompatibilityLayer;
use flowwisper::desktop::native_probe::windows::{compute_timings, timings_of, ProbeStart};
use flowwisper::desktop::native_probe::{
    macos, observe, probe_fn, split_budget, windows, NativeProbeObservation, ProbeBudget,
    ProbeError, ProbeEvent, ProbeStep,
};

fn pressed(reaction_ns: u64) -> ProbeEvent {
    ProbeEvent::Fn {
        latency_ns: 3_000_000,
        raw_ns: 3_000_000,
        reaction_ns,
        device_origin: Some("USB/Keyboard".into()),
    }
}

fn caught(reaction_ns: u64) -> NativeProbeObservation {
    observe("IOHID", Some(pressed(reaction_ns))).expect("caught")
}

#[test]
fn a_fast_key_is_within_the_limit() {
    let fast = caught(400_000_000);
    assert!(fast.supported);
    assert_eq!(fast.within_sla, Some(true));
    assert_eq!(caught(400_000_001).within_sla, Some(false));
    let result = HotkeyCompatibilityLayer::native_result(Ok(fast));
    assert_eq!(result.latency_ms, Some(3));
    assert_eq!(result.user_reaction_ms, Some(400));
    assert_eq!(result.interface.as_deref(), Some("IOHID"));
}

#[test]
fn failures_are_told() {
    let result = HotkeyCompatibilityLayer::native_result(Err(ProbeError::Timeout));
    assert_eq!(
        result.reason.as_deref(),
        Some("未在 400ms 内收到驱动回调，已建议录制备用组合")
    );
    let result = HotkeyCompatibilityLayer::native_result(Err(ProbeError::Io("x".into())));
    assert_eq!(result.reason.as_deref(), Some("原生探测失败: x"));
    assert_eq!(ProbeError::Timeout.message(), "Fn 探测超时");
    assert!(probe_fn(1).is_err());
}

#[test]
fn the_budget_is_shared() {
    assert_eq!(split_budget(400_000_000).primary_ns, 240_000_000);
    assert_eq!(split_budget(200_000_000).primary_ns, 80_000_000);
    assert_eq!(split_budget(100_000_000).primary_ns, 50_000_000);
    for total in [0, 1, 120_000_000, 240_000_001, 400_000_000] {
        let budget = split_budget(total);
        assert_eq!(budget.primary_ns + budget.fallback_ns, total);
        assert!(total == 0 || budget.fallback_ns > 0);
    }
}

#[test]
fn the_second_interface_gets_its_turn() {
    let budget = ProbeBudget { primary_ns: 240_000_000, fallback_ns: 160_000_000 };
    assert!(matches!(
        macos::after_iohid(Ok(caught(1)), budget),
        ProbeStep::Done(Ok(_))
    ));
    let budget = ProbeBudget { primary_ns: 240_000_000, fallback_ns: 160_000_000 };
    assert!(matches!(
        macos::after_iohid(Err(ProbeError::Timeout), budget),
        ProbeStep::Fallback(Err(ProbeError::Timeout))
    ));
    let budget = ProbeBudget { primary_ns: 240_000_000, fallback_ns: 160_000_000 };
    assert!(matches!(
        windows::after_hook(Err(ProbeError::Timeout), budget),
        ProbeStep::Fallback(_)
    ));
    match windows::after_raw_input(Err(ProbeError::Timeout), Ok(caught(1))) {
        Ok(o) => assert!(o.supported),
        Err(_) => panic!("the second interface caught the key"),
    }
}

#[test]
fn keys_are_described() {
    assert_eq!(macos::describe_key(0x04), "A");
    assert_eq!(macos::describe_key(0x1d), "Z");
    assert_eq!(windows::describe_key(0x1b), "Esc");
    assert!(windows::is_fn_key(0xff, 5));
    assert!(windows::is_fn_key(0, 0));
    assert!(!windows::is_fn_key(0, 1));
    assert!(windows::is_raw_fn_key(0));
    assert_eq!(
        macos::origin_label(Some("USB".into()), Some("Board".into())).as_deref(),
        Some("USB/Board")
    );
    assert_eq!(
        windows::raw_device_label("HID".into(), true),
        "RemoteSession/HID"
    );
}

#[test]
fn ticks_become_nanoseconds() {
    let timebase = macos::Timebase { numer: 125, denom: 3 };
    assert_eq!(macos::convert(timebase, 24), (1_000, 1_000));
    let fast = macos::Timebase { numer: u32::MAX, denom: 1 };
    let (capped, whole) = macos::convert(fast, u64::MAX);
    assert_eq!(capped, u64::MAX);
    assert_eq!(whole, u64::MAX as u128 * u32::MAX as u128);
}

#[test]
fn event_times_follow_both_clocks() {
    let start = ProbeStart { tick: 0x1_ffff_fff0, counter: 1_000_000, frequency: 10_000_000 };
    let timings = timings_of(start, 4, 1_250_000).expect("clocks agree");
    assert_eq!(timings.reaction_ns, 20_000_000);
    assert_eq!(timings.raw_ns, 5_000_000);
    assert_eq!(timings.latency_ns, 5_000_000);
    assert_eq!(compute_timings(start, 4, 1_250_000), timings);
    assert!(timings_of(start, 4, 1_199_999).is_none());

    let stopped = ProbeStart { frequency: 0, ..start };
    assert_eq!(timings_of(stopped, 4, 0).expect("no counter").raw_ns, 0);
    let last = ProbeStart { tick: u64::MAX, ..start };
    assert!(timings_of(last, 0, 1_250_000).is_none());
    let slow = ProbeStart { counter: i64::MIN, frequency: 1, ..start };
    let timings = timings_of(slow, 4, i64::MAX).expect("clocks agree");
    assert_eq!(timings.raw_ns, i64::MAX as u128 * 1_000_000_000);
    assert_eq!(timings.latency_ns, u64::MAX);
}
