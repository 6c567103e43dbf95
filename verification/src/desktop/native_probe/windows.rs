//! The probe on Windows: a low-level keyboard hook first, Raw Input second.
use vstd::prelude::*;

use crate::desktop::native_probe;
use crate::desktop::native_probe::{
    NativeProbeObservation, ProbeBudget, ProbeError, ProbeEvent, ProbeStep,
};
use crate::text;

verus! {

/// The label of a key by its virtual key code.
pub open spec fn vk_label(vk: u32) -> Seq<char> {
    if vk == 0x1b {
        "Esc"@
    } else if vk == 0x09 {
        "Tab"@
    } else if vk == 0x0d {
        "Enter"@
    } else if vk == 0x08 {
        "Backspace"@
    } else if vk == 0x20 {
        "Space"@
    } else if vk == 0x2e {
        "Delete"@
    } else if vk == 0x2d {
        "Insert"@
    } else if vk == 0x25 {
        "Left"@
    } else if vk == 0x26 {
        "Up"@
    } else if vk == 0x27 {
        "Right"@
    } else if vk == 0x28 {
        "Down"@
    } else if 0x70 <= vk <= 0x7b {
        "F"@ + text::decimal_text((vk - 0x6f) as nat)
    } else {
        "VK(0x"@ + text::hex_text(vk as nat) + ")"@
    }
}

/// The label of a key by its virtual key code.
pub fn describe_key(vk: u32) -> (r: String)
    ensures
        r@ == vk_label(vk),
{
    if vk == 0x1b {
        "Esc".to_owned()
    } else if vk == 0x09 {
        "Tab".to_owned()
    } else if vk == 0x0d {
        "Enter".to_owned()
    } else if vk == 0x08 {
        "Backspace".to_owned()
    } else if vk == 0x20 {
        "Space".to_owned()
    } else if vk == 0x2e {
        "Delete".to_owned()
    } else if vk == 0x2d {
        "Insert".to_owned()
    } else if vk == 0x25 {
        "Left".to_owned()
    } else if vk == 0x26 {
        "Up".to_owned()
    } else if vk == 0x27 {
        "Right".to_owned()
    } else if vk == 0x28 {
        "Down".to_owned()
    } else if 0x70 <= vk && vk <= 0x7b {
        text::concat("F", text::decimal((vk - 0x6f) as u64).as_str())
    } else {
        text::concat3("VK(0x", text::hex(vk).as_str(), ")")
    }
}

/// Whether a key seen by the hook is the Fn key.
pub fn is_fn_key(vk_code: u32, scan_code: u32) -> (r: bool)
    ensures
        r == (vk_code == 0xff || (vk_code == 0 && scan_code == 0)),
{
    vk_code == 0xff || (vk_code == 0 && scan_code == 0)
}

/// Whether a key seen by Raw Input is the Fn key.
pub fn is_raw_fn_key(vkey: u16) -> (r: bool)
    ensures
        r == (vkey == 0 || vkey == 0xff),
{
    vkey == 0 || vkey == 0xff
}

/// When a probe was started, by the two clocks of the system.
#[derive(Debug, Clone, Copy, PartialEq, Eq, Structural)]
pub struct ProbeStart {
    /// Milliseconds since the system started.
    pub tick: u64,
    /// The performance counter.
    pub counter: i64,
    /// How often the performance counter counts in a second.
    pub frequency: i64,
}

/// The milliseconds from the start to an event, whose time stamp holds only the
/// low 32 bits of the clock.
pub open spec fn reaction_ms(start: ProbeStart, event_time: u32) -> u32 {
    let low = start.tick % 0x1_0000_0000;
    if event_time >= low {
        (event_time - low) as u32
    } else {
        (event_time + 0x1_0000_0000 - low) as u32
    }
}

/// `n`, brought into the range of the performance counter.
pub open spec fn capped(n: int) -> int {
    if n < i64::MIN {
        i64::MIN as int
    } else if n > i64::MAX {
        i64::MAX as int
    } else {
        n
    }
}

/// The performance counter at an event.
pub open spec fn event_counter(start: ProbeStart, event_time: u32) -> int {
    capped(
        start.counter + (((reaction_ms(start, event_time) * start.frequency) / 1000) as i64),
    )
}

/// What the performance counter counted from an event to `now`.
pub open spec fn counts_since(start: ProbeStart, event_time: u32, now: i64) -> int {
    capped(now - event_counter(start, event_time))
}

/// The times of a key event.
#[derive(Debug, Clone, Copy, PartialEq, Eq, Structural)]
pub struct ProbeTimings {
    pub latency_ns: u64,
    pub raw_ns: u128,
    pub reaction_ns: u64,
}

/// Whether the two clocks can be true of an event that is handled at `now`: the
/// time of the event can be counted, and the event is not after `now`.
pub open spec fn clocks_agree(start: ProbeStart, event_time: u32, now: i64) -> bool {
    &&& start.tick + reaction_ms(start, event_time) <= u64::MAX
    &&& start.frequency > 0 ==> counts_since(start, event_time, now) >= 0
}

/// Whether these are the times of an event that is handled at `now`. Without a
/// working counter there is no latency.
pub open spec fn times_event(r: ProbeTimings, start: ProbeStart, event_time: u32, now: i64) -> bool {
    &&& r.reaction_ns == reaction_ms(start, event_time) * 1_000_000
    &&& start.frequency <= 0 ==> r.raw_ns == 0
    &&& start.frequency > 0 ==> r.raw_ns == (counts_since(start, event_time, now) * 1_000_000_000)
        / (start.frequency as int)
    &&& r.latency_ns == if r.raw_ns <= u64::MAX {
        r.raw_ns as u64
    } else {
        u64::MAX
    }
}

fn reaction(start: ProbeStart, event_time: u32) -> (r: u64)
    ensures
        r == reaction_ms(start, event_time),
{
    let low: u64 = start.tick % 0x1_0000_0000;
    let time: u64 = event_time as u64;
    if time >= low {
        time - low
    } else {
        time + 0x1_0000_0000 - low
    }
}

fn counted_since(start: ProbeStart, event_time: u32, now: i64) -> (r: i128)
    requires
        start.frequency > 0,
    ensures
        r == counts_since(start, event_time, now),
{
    let reaction: u64 = reaction(start, event_time);
    let frequency: i128 = start.frequency as i128;
    proof {
        assert(0 <= reaction * start.frequency <= 0xffff_ffff * 0x7fff_ffff_ffff_ffff)
            by (nonlinear_arith)
            requires
                0 <= reaction <= 0xffff_ffff,
                0 < start.frequency <= 0x7fff_ffff_ffff_ffff,
        ;
    }
    let counts: i64 = ((reaction as i128) * frequency / 1000) as i64;
    let event: i128 = cap((start.counter as i128) + (counts as i128));
    cap((now as i128) - event)
}

/// The times of a key event that is handled when the performance counter stands
/// at `now`, or nothing if the clocks contradict each other.
pub fn timings_of(start: ProbeStart, event_time: u32, now: i64) -> (r: Option<ProbeTimings>)
    ensures
        match r {
            Some(timings) => clocks_agree(start, event_time, now) && times_event(
                timings,
                start,
                event_time,
                now,
            ),
            None => !clocks_agree(start, event_time, now),
        },
{
    if start.tick > u64::MAX - reaction(start, event_time) {
        return None;
    }
    if start.frequency > 0 && counted_since(start, event_time, now) < 0 {
        return None;
    }
    Some(compute_timings(start, event_time, now))
}

/// The times of a key event that is handled when the performance counter stands
/// at `now`, which is not before the event.
pub fn compute_timings(start: ProbeStart, event_time: u32, now: i64) -> (r: ProbeTimings)
    requires
        clocks_agree(start, event_time, now),
    ensures
        times_event(r, start, event_time, now),
{
    let reaction: u64 = reaction(start, event_time);
    let raw_ns: u128 = if start.frequency > 0 {
        let delta: i128 = counted_since(start, event_time, now);
        (delta as u128) * 1_000_000_000 / (start.frequency as u128)
    } else {
        0
    };
    let latency_ns: u64 = if raw_ns <= u64::MAX as u128 {
        raw_ns as u64
    } else {
        u64::MAX
    };
    ProbeTimings { latency_ns, raw_ns, reaction_ns: reaction * 1_000_000 }
}

fn cap(n: i128) -> (r: i128)
    ensures
        r == capped(n as int),
{
    if n < i64::MIN as i128 {
        i64::MIN as i128
    } else if n > i64::MAX as i128 {
        i64::MAX as i128
    } else {
        n
    }
}

/// Where a key seen by the hook comes from.
pub open spec fn hook_origin(extended: bool, remote_session: bool) -> Seq<char> {
    if extended {
        "External/Extended"@
    } else if remote_session {
        "RemoteSession"@
    } else {
        "Internal"@
    }
}

/// What a key press seen by the hook means for a probe.
pub fn on_hook_key(
    vk_code: u32,
    scan_code: u32,
    extended: bool,
    remote_session: bool,
    timings: ProbeTimings,
) -> (r: ProbeEvent)
    ensures
        if vk_code == 0xff || (vk_code == 0 && scan_code == 0) {
            r matches ProbeEvent::Fn { latency_ns, raw_ns, reaction_ns, device_origin }
                && latency_ns == timings.latency_ns && raw_ns == timings.raw_ns && reaction_ns
                == timings.reaction_ns && text::opt_text(device_origin) == Some(
                hook_origin(extended, remote_session),
            )
        } else {
            r matches ProbeEvent::Other(label) && label@ == vk_label(vk_code)
        },
{
    if is_fn_key(vk_code, scan_code) {
        let origin = if extended {
            "External/Extended"
        } else if remote_session {
            "RemoteSession"
        } else {
            "Internal"
        };
        ProbeEvent::Fn {
            latency_ns: timings.latency_ns,
            raw_ns: timings.raw_ns,
            reaction_ns: timings.reaction_ns,
            device_origin: Some(origin.to_owned()),
        }
    } else {
        ProbeEvent::Other(describe_key(vk_code))
    }
}

/// What a key event seen by Raw Input means for a probe. Releases mean nothing.
pub fn on_raw_key(
    vkey: u16,
    is_release: bool,
    device_origin: Option<String>,
    timings: ProbeTimings,
) -> (r: Option<ProbeEvent>)
    ensures
        is_release ==> r is None,
        !is_release && (vkey == 0 || vkey == 0xff) ==> r == Some(
            ProbeEvent::Fn {
                latency_ns: timings.latency_ns,
                raw_ns: timings.raw_ns,
                reaction_ns: timings.reaction_ns,
                device_origin,
            },
        ),
        !is_release && !(vkey == 0 || vkey == 0xff) ==> (r matches Some(ProbeEvent::Other(label))
            && label@ == vk_label(vkey as u32)),
{
    if is_release {
        return None;
    }
    if is_raw_fn_key(vkey) {
        Some(
            ProbeEvent::Fn {
                latency_ns: timings.latency_ns,
                raw_ns: timings.raw_ns,
                reaction_ns: timings.reaction_ns,
                device_origin,
            },
        )
    } else {
        Some(ProbeEvent::Other(describe_key(vkey as u32)))
    }
}

/// The name of a Raw Input device, marked if the session is remote.
pub fn raw_device_label(label: String, remote_session: bool) -> (r: String)
    ensures
        r@ == if remote_session {
            "RemoteSession/"@ + label@
        } else {
            label@
        },
{
    if remote_session {
        text::concat("RemoteSession/", label.as_str())
    } else {
        label
    }
}

/// The outcome of a probe through the keyboard hook.
pub fn observe_hook(event: Option<ProbeEvent>) -> (r: Result<NativeProbeObservation, ProbeError>)
    ensures
        match event {
            Some(ProbeEvent::Fn { latency_ns, raw_ns, reaction_ns, device_origin }) => {
                &&& r matches Ok(o)
                &&& o.supported
                &&& o.latency_ns == Some(latency_ns)
                &&& o.raw_latency_ns == Some(raw_ns)
                &&& o.user_reaction_ns == Some(reaction_ns)
                &&& o.within_sla == Some(reaction_ns <= native_probe::SLA_NS)
                &&& o.device_origin == device_origin
                &&& o.interface@ == "SetWindowsHookEx"@
                &&& text::opt_text(o.reason) == if reaction_ns <= native_probe::SLA_NS {
                    None
                } else {
                    Some(native_probe::late_text(reaction_ns))
                }
            },
            Some(ProbeEvent::Other(label)) => r matches Ok(o) && native_probe::is_miss(
                o,
                "SetWindowsHookEx"@,
                None,
                "检测到按键 "@ + label@ + "，未捕获到 Fn"@,
            ),
            Some(ProbeEvent::Error(reason)) => r == Err::<NativeProbeObservation, ProbeError>(
                ProbeError::Io(reason),
            ),
            None => r matches Err(ProbeError::Timeout),
        },
{
    native_probe::observe("SetWindowsHookEx", event)
}

/// The outcome of a probe through Raw Input.
pub fn observe_raw_input(event: Option<ProbeEvent>) -> (r: Result<
    NativeProbeObservation,
    ProbeError,
>)
    ensures
        match event {
            Some(ProbeEvent::Fn { latency_ns, raw_ns, reaction_ns, device_origin }) => {
                &&& r matches Ok(o)
                &&& o.supported
                &&& o.latency_ns == Some(latency_ns)
                &&& o.raw_latency_ns == Some(raw_ns)
                &&& o.user_reaction_ns == Some(reaction_ns)
                &&& o.within_sla == Some(reaction_ns <= native_probe::SLA_NS)
                &&& o.device_origin == device_origin
                &&& o.interface@ == "RawInput"@
                &&& text::opt_text(o.reason) == if reaction_ns <= native_probe::SLA_NS {
                    None
                } else {
                    Some(native_probe::late_text(reaction_ns))
                }
            },
            Some(ProbeEvent::Other(label)) => r matches Ok(o) && native_probe::is_miss(
                o,
                "RawInput"@,
                None,
                "检测到按键 "@ + label@ + "，未捕获到 Fn"@,
            ),
            Some(ProbeEvent::Error(reason)) => r == Err::<NativeProbeObservation, ProbeError>(
                ProbeError::Io(reason),
            ),
            None => r matches Err(ProbeError::Timeout),
        },
{
    native_probe::observe("RawInput", event)
}

/// Decides what follows the attempt through the hook: a success is the outcome;
/// otherwise Raw Input gets its turn if there is time left for it.
pub fn after_hook(primary: Result<NativeProbeObservation, ProbeError>, budget: ProbeBudget) -> (r:
    ProbeStep)
    ensures
        if primary matches Ok(o) && o.supported {
            r == ProbeStep::Done(primary)
        } else if budget.fallback_ns > 0 {
            r == ProbeStep::Fallback(primary)
        } else {
            match primary {
                Ok(o) => {
                    &&& r matches ProbeStep::Done(Ok(p))
                    &&& p == (NativeProbeObservation { reason: p.reason, ..o })
                    &&& text::opt_text(p.reason) == Some(
                        match o.reason {
                            Some(reason) => reason@,
                            None => "低层钩子未在 "@ + text::decimal_text(
                                (budget.primary_ns / 1_000_000) as nat,
                            ) + "ms 内捕获 Fn"@,
                        },
                    )
                },
                Err(_) => r == ProbeStep::Done(primary),
            }
        },
{
    match primary {
        Ok(observation) => {
            if observation.supported {
                return ProbeStep::Done(Ok(observation));
            }
            if budget.fallback_ns > 0 {
                return ProbeStep::Fallback(Ok(observation));
            }
            let mut observation = observation;
            if observation.reason.is_none() {
                observation.reason = Some(
                    text::concat3(
                        "低层钩子未在 ",
                        text::decimal(budget.primary_ns / 1_000_000).as_str(),
                        "ms 内捕获 Fn",
                    ),
                );
            }
            ProbeStep::Done(Ok(observation))
        },
        Err(error) => {
            if budget.fallback_ns > 0 {
                ProbeStep::Fallback(Err(error))
            } else {
                ProbeStep::Done(Err(error))
            }
        },
    }
}

/// The outcome of a probe that went through both interfaces: an answer of Raw
/// Input is taken as it is; without one, what the hook came to stands.
pub fn after_raw_input(
    primary: Result<NativeProbeObservation, ProbeError>,
    fallback: Result<NativeProbeObservation, ProbeError>,
) -> (r: Result<NativeProbeObservation, ProbeError>)
    ensures
        match fallback {
            Ok(_) => r == fallback,
            Err(error) => match primary {
                Err(_) => r == primary,
                Ok(o) => {
                    &&& r matches Ok(p)
                    &&& p == (NativeProbeObservation { reason: p.reason, ..o })
                    &&& text::opt_text(p.reason) == Some(
                        match o.reason {
                            Some(existing) => existing@ + "；Raw Input 退化失败: "@
                                + native_probe::error_text(error),
                            None => "Raw Input 退化失败: "@ + native_probe::error_text(error),
                        },
                    )
                },
            },
        },
{
    match fallback {
        Ok(answer) => Ok(answer),
        Err(error) => match primary {
            Err(primary_error) => Err(primary_error),
            Ok(mut observation) => {
                let reason = match &observation.reason {
                    Some(existing) => text::concat3(
                        existing.as_str(),
                        "；Raw Input 退化失败: ",
                        error.message().as_str(),
                    ),
                    None => text::concat("Raw Input 退化失败: ", error.message().as_str()),
                };
                observation.reason = Some(reason);
                Ok(observation)
            },
        },
    }
}

/// Keys are told by their names, function keys by their number, and all others by
/// their code.
pub proof fn law_keys_are_told_apart(i: int, code: u32)
    ensures
        ({
            let codes = seq![0x1bu32, 0x09, 0x0d, 0x08, 0x20, 0x2e, 0x2d, 0x25, 0x26, 0x27, 0x28];
            let names = seq![
                "Esc"@,
                "Tab"@,
                "Enter"@,
                "Backspace"@,
                "Space"@,
                "Delete"@,
                "Insert"@,
                "Left"@,
                "Up"@,
                "Right"@,
                "Down"@,
            ];
            &&& 0 <= i < 11 ==> vk_label(codes[i]) == names[i]
            &&& (forall|k: int| 0 <= k < 11 ==> #[trigger] codes[k] != code) && !(0x70 <= code
                <= 0x7b) ==> vk_label(code) == "VK(0x"@ + text::hex_text(code as nat) + ")"@
        }),
        1 <= i <= 12 ==> vk_label((0x6f + i) as u32) == "F"@ + text::decimal_text(i as nat),
{
    let codes = seq![0x1bu32, 0x09, 0x0d, 0x08, 0x20, 0x2e, 0x2d, 0x25, 0x26, 0x27, 0x28];
    assert(codes[0] == 0x1b && codes[1] == 0x09 && codes[2] == 0x0d && codes[3] == 0x08);
    assert(codes[4] == 0x20 && codes[5] == 0x2e && codes[6] == 0x2d && codes[7] == 0x25);
    assert(codes[8] == 0x26 && codes[9] == 0x27 && codes[10] == 0x28);
}

/// The time from the start to an event is what the clock gained in between, also
/// where its low half ran over.
pub proof fn law_reaction_is_what_the_clock_gained(start: ProbeStart, gained: u32)
    ensures
        reaction_ms(start, ((start.tick + gained) % 0x1_0000_0000) as u32) == gained,
{
}

} // verus!
