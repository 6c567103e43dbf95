//! The probe on macOS: IOHID first, the Karabiner virtual keyboard second.
use vstd::prelude::*;

use crate::desktop::native_probe;
use crate::desktop::native_probe::{
    NativeProbeObservation, ProbeBudget, ProbeError, ProbeEvent, ProbeStep,
};
use crate::text;

verus! {

/// The HID usage page of Apple's own keys.
pub const APPLE_VENDOR_PAGE: u32 = 0xff00;

/// The HID usage of the Fn key.
pub const APPLE_FN_USAGE: u32 = 0x0003;

/// The HID usage page of keyboards.
pub const KEYBOARD_PAGE: u32 = 0x07;

/// The label of a key by its HID usage.
pub open spec fn usage_label(usage: u32) -> Seq<char> {
    if 0x04 <= usage <= 0x1d {
        seq![((usage - 0x04 + 65) as u8) as char]
    } else if 0x1e <= usage <= 0x27 {
        text::decimal_text((usage - 0x1d) as nat)
    } else if usage == 0x28 {
        "Enter"@
    } else if usage == 0x29 {
        "Esc"@
    } else if usage == 0x2a {
        "Backspace"@
    } else if usage == 0x2b {
        "Tab"@
    } else if usage == 0x2c {
        "Space"@
    } else if usage == 0x39 {
        "CapsLock"@
    } else {
        "Usage(0x"@ + text::hex_text(usage as nat) + ")"@
    }
}

/// The label of a key by its HID usage.
pub fn describe_key(usage: u32) -> (r: String)
    ensures
        r@ == usage_label(usage),
{
    if 0x04 <= usage && usage <= 0x1d {
        let mut label = String::new();
        let c = ((usage - 0x04 + 65) as u8) as char;
        label.push(c);
        assert(label@ =~= seq![c]);
        label
    } else if 0x1e <= usage && usage <= 0x27 {
        text::decimal((usage - 0x1d) as u64)
    } else if usage == 0x28 {
        "Enter".to_owned()
    } else if usage == 0x29 {
        "Esc".to_owned()
    } else if usage == 0x2a {
        "Backspace".to_owned()
    } else if usage == 0x2b {
        "Tab".to_owned()
    } else if usage == 0x2c {
        "Space".to_owned()
    } else if usage == 0x39 {
        "CapsLock".to_owned()
    } else {
        text::concat3("Usage(0x", text::hex(usage).as_str(), ")")
    }
}

/// The length of a tick of the machine's clock, as a fraction of nanoseconds.
#[derive(Debug, Clone, Copy, PartialEq, Eq, Structural)]
pub struct Timebase {
    pub numer: u32,
    pub denom: u32,
}

/// The nanoseconds in `delta` ticks.
pub open spec fn ticks_ns(timebase: Timebase, delta: u64) -> int {
    (delta * timebase.numer) / (timebase.denom as int)
}

/// The nanoseconds in `delta` ticks, once capped and once whole.
pub fn convert(timebase: Timebase, delta: u64) -> (r: (u64, u128))
    requires
        timebase.denom > 0,
    ensures
        r.1 == ticks_ns(timebase, delta),
        r.0 == if ticks_ns(timebase, delta) <= u64::MAX {
            ticks_ns(timebase, delta)
        } else {
            u64::MAX as int
        },
{
    proof {
        assert(delta * timebase.numer <= 0xffff_ffff_ffff_ffff * 0xffff_ffff) by (nonlinear_arith)
            requires
                0 <= delta <= 0xffff_ffff_ffff_ffff,
                0 <= timebase.numer <= 0xffff_ffff,
        ;
        assert(delta * timebase.numer >= 0) by (nonlinear_arith);
    }
    let nanos: u128 = (delta as u128) * (timebase.numer as u128) / (timebase.denom as u128);
    let capped: u64 = if nanos <= u64::MAX as u128 {
        nanos as u64
    } else {
        u64::MAX
    };
    (capped, nanos)
}

/// An input value that IOHID reports.
pub struct HidInput {
    /// The status of the report; zero means success.
    pub status: u32,
    /// The usage page and usage of its element, if it has one.
    pub element: Option<(u32, u32)>,
    /// The present time, and that of the event, in ticks.
    pub now: u64,
    pub event_ts: u64,
    /// Where the device is connected.
    pub device_origin: Option<String>,
}

/// `a` minus `b`, or zero.
pub open spec fn less(a: u64, b: u64) -> u64 {
    if a >= b {
        (a - b) as u64
    } else {
        0
    }
}

/// What a report of IOHID means for a probe that was started at `prompt_ts`.
/// Reports that are neither the Fn key nor a key of the keyboard mean nothing.
pub fn on_input(input: HidInput, timebase: Timebase, prompt_ts: u64) -> (r: Option<ProbeEvent>)
    requires
        timebase.denom > 0,
    ensures
        if input.status != 0 {
            r matches Some(ProbeEvent::Error(e)) && e@ == "IOHID 回调错误: 0x"@ + text::hex_text(
                input.status as nat,
            )
        } else {
            match input.element {
                None => r matches Some(ProbeEvent::Error(e)) && e@ == "缺少 HID 元素"@,
                Some((page, usage)) => if page == APPLE_VENDOR_PAGE && usage == APPLE_FN_USAGE {
                    r matches Some(
                        ProbeEvent::Fn { latency_ns, raw_ns, reaction_ns, device_origin },
                    ) && raw_ns == ticks_ns(timebase, less(input.now, input.event_ts))
                        && latency_ns == (if raw_ns <= u64::MAX {
                        raw_ns as u64
                    } else {
                        u64::MAX
                    }) && reaction_ns == (if ticks_ns(timebase, less(input.event_ts, prompt_ts))
                        <= u64::MAX {
                        ticks_ns(timebase, less(input.event_ts, prompt_ts)) as u64
                    } else {
                        u64::MAX
                    }) && device_origin == input.device_origin
                } else if page == KEYBOARD_PAGE {
                    r matches Some(ProbeEvent::Other(label)) && label@ == usage_label(usage)
                } else {
                    r is None
                },
            }
        },
{
    if input.status != 0 {
        return Some(
            ProbeEvent::Error(text::concat("IOHID 回调错误: 0x", text::hex(input.status).as_str())),
        );
    }
    match input.element {
        None => Some(ProbeEvent::Error("缺少 HID 元素".to_owned())),
        Some((page, usage)) => {
            if page == APPLE_VENDOR_PAGE && usage == APPLE_FN_USAGE {
                let (latency_ns, raw_ns) = convert(
                    timebase,
                    input.now.saturating_sub(input.event_ts),
                );
                let (reaction_ns, _) = convert(
                    timebase,
                    input.event_ts.saturating_sub(prompt_ts),
                );
                Some(
                    ProbeEvent::Fn {
                        latency_ns,
                        raw_ns,
                        reaction_ns,
                        device_origin: input.device_origin,
                    },
                )
            } else if page == KEYBOARD_PAGE {
                Some(ProbeEvent::Other(describe_key(usage)))
            } else {
                None
            }
        },
    }
}

/// Where a device is connected, from what it says of its transport and itself.
pub fn origin_label(transport: Option<String>, product: Option<String>) -> (r: Option<String>)
    ensures
        match (transport, product) {
            (Some(t), Some(p)) => text::opt_text(r) == Some(t@ + "/"@ + p@),
            (Some(t), None) => text::opt_text(r) == Some(t@),
            (None, Some(p)) => text::opt_text(r) == Some(p@),
            (None, None) => r is None,
        },
{
    match (transport, product) {
        (Some(t), Some(p)) => Some(text::concat3(t.as_str(), "/", p.as_str())),
        (Some(t), None) => Some(t),
        (None, Some(p)) => Some(p),
        (None, None) => None,
    }
}

/// The outcome of a probe through IOHID.
pub fn observe_iohid(event: Option<ProbeEvent>) -> (r: Result<NativeProbeObservation, ProbeError>)
    ensures
        match event {
            Some(ProbeEvent::Fn { latency_ns, raw_ns, reaction_ns, device_origin }) => {
                &&& r matches Ok(o)
                &&& o.supported
                &&& o.latency_ns == Some(latency_ns)
                &&& o.raw_latency_ns == Some(raw_ns)
                &&& o.user_reaction_ns == Some(reaction_ns)
                &&& o.within_sla == Some(reaction_ns <= native_probe::SLA_NS)
                &&& o.device_origin == device_origin
                &&& o.interface@ == "IOHID"@
                &&& text::opt_text(o.reason) == if reaction_ns <= native_probe::SLA_NS {
                    None
                } else {
                    Some(native_probe::late_text(reaction_ns))
                }
            },
            Some(ProbeEvent::Other(label)) => r matches Ok(o) && native_probe::is_miss(
                o,
                "IOHID"@,
                None,
                "检测到按键 "@ + label@ + "，未捕获到 Fn"@,
            ),
            Some(ProbeEvent::Error(reason)) => r == Err::<NativeProbeObservation, ProbeError>(
                ProbeError::Io(reason),
            ),
            None => r matches Err(ProbeError::Timeout),
        },
{
    native_probe::observe("IOHID", event)
}

/// How far the Karabiner virtual keyboard got.
#[derive(Debug, Clone, Copy, PartialEq, Eq, Structural)]
pub enum KarabinerSetup {
    NotActivated,
    NotRegistered,
    NotGrabbed,
}

/// The outcome of a probe whose virtual keyboard could not be set up.
pub fn karabiner_unavailable(setup: KarabinerSetup) -> (o: NativeProbeObservation)
    ensures
        native_probe::is_miss(
            o,
            "Karabiner"@,
            None,
            match setup {
                KarabinerSetup::NotActivated => "Karabiner 虚拟设备未激活"@,
                KarabinerSetup::NotRegistered => "Karabiner 注册虚拟键盘失败"@,
                KarabinerSetup::NotGrabbed => "Karabiner 无法获取虚拟键盘控制权"@,
            },
        ),
{
    let reason = match setup {
        KarabinerSetup::NotActivated => "Karabiner 虚拟设备未激活",
        KarabinerSetup::NotRegistered => "Karabiner 注册虚拟键盘失败",
        KarabinerSetup::NotGrabbed => "Karabiner 无法获取虚拟键盘控制权",
    };
    native_probe::miss("Karabiner", None, reason.to_owned())
}

/// What the virtual keyboard reports of one key.
#[derive(Debug, Clone, Copy, PartialEq, Eq, Structural)]
pub struct KarabinerEvent {
    /// The status of the report; zero means success.
    pub status: i32,
    pub page: u32,
    pub code: u32,
    /// The time since the probe was started.
    pub reaction_ns: u64,
}

/// What is said of a key seen by the virtual keyboard in `reaction_ns`.
pub open spec fn karabiner_reason(reaction_ns: u64) -> Seq<char> {
    if reaction_ns <= native_probe::SLA_NS {
        "IOHID 捕获失败，使用 Karabiner 虚拟设备完成探测"@
    } else {
        "Karabiner 退化路径回调 "@ + text::decimal_text((reaction_ns / 1_000_000) as nat)
            + "ms，超出 400ms SLA"@
    }
}

/// The outcome of a probe through the virtual keyboard, given its report, or
/// none if the time ran out.
pub fn observe_karabiner(event: Option<KarabinerEvent>) -> (r: Result<
    NativeProbeObservation,
    ProbeError,
>)
    ensures
        match event {
            None => r matches Err(ProbeError::Timeout),
            Some(e) => if e.status != 0 {
                r matches Err(ProbeError::Io(m)) && m@ == "Karabiner 事件等待失败: "@
                    + text::signed_text(e.status as int)
            } else if e.page == APPLE_VENDOR_PAGE && e.code == APPLE_FN_USAGE {
                &&& r matches Ok(o)
                &&& o.supported
                &&& o.latency_ns is None
                &&& o.raw_latency_ns is None
                &&& o.user_reaction_ns == Some(e.reaction_ns)
                &&& o.within_sla == Some(e.reaction_ns <= native_probe::SLA_NS)
                &&& text::opt_text(o.device_origin) == Some("KarabinerVirtual"@)
                &&& o.interface@ == "Karabiner"@
                &&& text::opt_text(o.reason) == Some(karabiner_reason(e.reaction_ns))
            } else {
                r matches Ok(o) && native_probe::is_miss(
                    o,
                    "Karabiner"@,
                    Some("KarabinerVirtual"@),
                    "Karabiner 捕获到非 Fn 按键 (page: 0x"@ + text::hex_text(e.page as nat)
                        + ", code: 0x"@ + text::hex_text(e.code as nat) + ")"@,
                )
            },
        },
{
    let e = match event {
        Some(e) => e,
        None => {
            return Err(ProbeError::Timeout);
        },
    };
    if e.status != 0 {
        return Err(
            ProbeError::Io(
                text::concat("Karabiner 事件等待失败: ", text::signed_decimal(e.status).as_str()),
            ),
        );
    }
    if e.page == APPLE_VENDOR_PAGE && e.code == APPLE_FN_USAGE {
        let within_sla = e.reaction_ns <= native_probe::SLA_NS;
        Ok(
            NativeProbeObservation {
                supported: true,
                latency_ns: None,
                raw_latency_ns: None,
                user_reaction_ns: Some(e.reaction_ns),
                within_sla: Some(within_sla),
                device_origin: Some("KarabinerVirtual".to_owned()),
                interface: "Karabiner".to_owned(),
                reason: Some(
                    if within_sla {
                        "IOHID 捕获失败，使用 Karabiner 虚拟设备完成探测".to_owned()
                    } else {
                        text::concat3(
                            "Karabiner 退化路径回调 ",
                            text::decimal(e.reaction_ns / 1_000_000).as_str(),
                            "ms，超出 400ms SLA",
                        )
                    },
                ),
            },
        )
    } else {
        Ok(
            native_probe::miss(
                "Karabiner",
                Some("KarabinerVirtual".to_owned()),
                text::concat5(
                    "Karabiner 捕获到非 Fn 按键 (page: 0x",
                    text::hex(e.page).as_str(),
                    ", code: 0x",
                    text::hex(e.code).as_str(),
                    ")",
                ),
            ),
        )
    }
}

/// The milliseconds of a budget, in words.
pub open spec fn budget_text(ns: u64) -> Seq<char> {
    text::decimal_text((ns / 1_000_000) as nat)
}

/// What is said if IOHID gave no answer and there is no time for a second
/// attempt.
pub open spec fn primary_only_reason(
    primary: Result<NativeProbeObservation, ProbeError>,
    budget: ProbeBudget,
) -> Seq<char> {
    match primary {
        Ok(o) => match o.reason {
            Some(reason) => reason@,
            None => "IOHID 未在 "@ + budget_text(budget.primary_ns) + "ms 内捕获 Fn"@,
        },
        Err(ProbeError::Timeout) => "IOHID 捕获在 "@ + budget_text(budget.primary_ns)
            + "ms 预算内超时"@,
        Err(ProbeError::Io(message)) => "IOHID 捕获失败："@ + message@,
    }
}

/// Decides what follows the attempt through IOHID: a success is the outcome;
/// otherwise the virtual keyboard gets its turn if there is time left for it.
pub fn after_iohid(primary: Result<NativeProbeObservation, ProbeError>, budget: ProbeBudget) -> (r:
    ProbeStep)
    ensures
        if primary matches Ok(o) && o.supported {
            r == ProbeStep::Done(primary)
        } else if budget.fallback_ns > 0 {
            r == ProbeStep::Fallback(primary)
        } else {
            match primary {
                Ok(o) => r matches ProbeStep::Done(Ok(p)) && text::opt_text(p.reason) == Some(
                    primary_only_reason(primary, budget),
                ) && p == (NativeProbeObservation { reason: p.reason, ..o }),
                Err(_) => r matches ProbeStep::Done(Ok(p)) && native_probe::is_miss(
                    p,
                    "IOHID"@,
                    None,
                    primary_only_reason(primary, budget),
                ),
            }
        },
{
    match primary {
        Ok(observation) => {
            if observation.supported {
                return ProbeStep::Done(Ok(observation));
            }
            if budget.fallback_ns > 0 {
                return ProbeStep::Fallback(Ok(observation));
            }
            let mut observation = observation;
            if observation.reason.is_none() {
                observation.reason = Some(
                    text::concat3(
                        "IOHID 未在 ",
                        text::decimal(budget.primary_ns / 1_000_000).as_str(),
                        "ms 内捕获 Fn",
                    ),
                );
            }
            ProbeStep::Done(Ok(observation))
        },
        Err(error) => {
            if budget.fallback_ns > 0 {
                return ProbeStep::Fallback(Err(error));
            }
            let reason = match error {
                ProbeError::Timeout => text::concat3(
                    "IOHID 捕获在 ",
                    text::decimal(budget.primary_ns / 1_000_000).as_str(),
                    "ms 预算内超时",
                ),
                ProbeError::Io(message) => text::concat("IOHID 捕获失败：", message.as_str()),
            };
            ProbeStep::Done(Ok(native_probe::miss("IOHID", None, reason)))
        },
    }
}

/// What is said of a probe that went through both interfaces, where the virtual
/// keyboard answered with `fallback`.
pub open spec fn answered_reason(
    primary: Result<NativeProbeObservation, ProbeError>,
    fallback: NativeProbeObservation,
    budget: ProbeBudget,
) -> Seq<char> {
    match primary {
        Ok(first) => if fallback.supported {
            match (fallback.reason, first.reason) {
                (Some(f), Some(io)) => io@ + "；"@ + f@,
                (Some(f), None) => f@,
                (None, Some(io)) => io@ + "；已回退至 Karabiner 完成探测"@,
                (None, None) => "已回退至 Karabiner 完成探测"@,
            }
        } else {
            match (fallback.reason, first.reason) {
                (Some(f), Some(io)) => io@ + "；Karabiner 退化仍失败（"@ + f@ + "）"@,
                (Some(f), None) => "Karabiner 退化仍失败（"@ + f@ + "）"@,
                (None, Some(io)) => io@ + "；Karabiner 退化仍失败"@,
                (None, None) => "Karabiner 退化仍失败"@,
            }
        },
        Err(ProbeError::Timeout) => match fallback.reason {
            Some(f) => "IOHID 捕获超时；"@ + f@,
            None => "IOHID 捕获在 "@ + budget_text(budget.primary_ns)
                + "ms 内超时；已回退至 Karabiner"@,
        },
        Err(ProbeError::Io(message)) => match fallback.reason {
            Some(f) => "IOHID 错误："@ + message@ + "；"@ + f@,
            None => "IOHID 错误："@ + message@ + "；已回退至 Karabiner"@,
        },
    }
}

/// What is said of a probe that went through both interfaces, where the virtual
/// keyboard failed.
pub open spec fn failed_reason(
    primary: Result<NativeProbeObservation, ProbeError>,
    error: ProbeError,
    budget: ProbeBudget,
) -> Seq<char> {
    let fallback_late = budget_text(budget.fallback_ns);
    match (primary, error) {
        (Ok(first), ProbeError::Timeout) => (match first.reason {
            Some(io) => io@,
            None => "IOHID 未捕获 Fn"@,
        }) + "；Karabiner 退化在 "@ + fallback_late + "ms 内超时"@,
        (Ok(first), ProbeError::Io(m)) => (match first.reason {
            Some(io) => io@,
            None => "IOHID 未捕获 Fn"@,
        }) + "；Karabiner 退化失败："@ + m@,
        (Err(ProbeError::Timeout), ProbeError::Timeout) => "IOHID 捕获在 "@ + budget_text(
            budget.primary_ns,
        ) + "ms 内超时；Karabiner 退化在 "@ + fallback_late + "ms 内同样超时"@,
        (Err(ProbeError::Timeout), ProbeError::Io(m)) => {
            "IOHID 捕获超时；Karabiner 退化失败："@ + m@
        },
        (Err(ProbeError::Io(io)), ProbeError::Timeout) => "IOHID 错误："@ + io@
            + "；Karabiner 退化在 "@ + fallback_late + "ms 内超时"@,
        (Err(ProbeError::Io(io)), ProbeError::Io(m)) => "IOHID 错误："@ + io@
            + "；Karabiner 退化失败："@ + m@,
    }
}

fn answered_text(
    primary: &Result<NativeProbeObservation, ProbeError>,
    fallback: &NativeProbeObservation,
    budget: ProbeBudget,
) -> (r: String)
    ensures
        r@ == answered_reason(*primary, *fallback, budget),
{
    match primary {
        Ok(first) => if fallback.supported {
            match (&fallback.reason, &first.reason) {
                (Some(f), Some(io)) => text::concat3(io.as_str(), "；", f.as_str()),
                (Some(f), None) => f.clone(),
                (None, Some(io)) => text::concat(io.as_str(), "；已回退至 Karabiner 完成探测"),
                (None, None) => "已回退至 Karabiner 完成探测".to_owned(),
            }
        } else {
            match (&fallback.reason, &first.reason) {
                (Some(f), Some(io)) => text::concat4(
                    io.as_str(),
                    "；Karabiner 退化仍失败（",
                    f.as_str(),
                    "）",
                ),
                (Some(f), None) => text::concat3("Karabiner 退化仍失败（", f.as_str(), "）"),
                (None, Some(io)) => text::concat(io.as_str(), "；Karabiner 退化仍失败"),
                (None, None) => "Karabiner 退化仍失败".to_owned(),
            }
        },
        Err(ProbeError::Timeout) => match &fallback.reason {
            Some(f) => text::concat("IOHID 捕获超时；", f.as_str()),
            None => text::concat3(
                "IOHID 捕获在 ",
                text::decimal(budget.primary_ns / 1_000_000).as_str(),
                "ms 内超时；已回退至 Karabiner",
            ),
        },
        Err(ProbeError::Io(message)) => match &fallback.reason {
            Some(f) => text::concat4("IOHID 错误：", message.as_str(), "；", f.as_str()),
            None => text::concat3("IOHID 错误：", message.as_str(), "；已回退至 Karabiner"),
        },
    }
}

fn failed_text(
    primary: &Result<NativeProbeObservation, ProbeError>,
    error: &ProbeError,
    budget: ProbeBudget,
) -> (r: String)
    ensures
        r@ == failed_reason(*primary, *error, budget),
{
    let late = text::decimal(budget.fallback_ns / 1_000_000);
    match primary {
        Ok(first) => {
            let io = match &first.reason {
                Some(io) => io.clone(),
                None => "IOHID 未捕获 Fn".to_owned(),
            };
            match error {
                ProbeError::Timeout => text::concat4(
                    io.as_str(),
                    "；Karabiner 退化在 ",
                    late.as_str(),
                    "ms 内超时",
                ),
                ProbeError::Io(m) => text::concat3(
                    io.as_str(),
                    "；Karabiner 退化失败：",
                    m.as_str(),
                ),
            }
        },
        Err(ProbeError::Timeout) => match error {
            ProbeError::Timeout => text::concat5(
                "IOHID 捕获在 ",
                text::decimal(budget.primary_ns / 1_000_000).as_str(),
                "ms 内超时；Karabiner 退化在 ",
                late.as_str(),
                "ms 内同样超时",
            ),
            ProbeError::Io(m) => text::concat("IOHID 捕获超时；Karabiner 退化失败：", m.as_str()),
        },
        Err(ProbeError::Io(io)) => match error {
            ProbeError::Timeout => text::concat5(
                "IOHID 错误：",
                io.as_str(),
                "；Karabiner 退化在 ",
                late.as_str(),
                "ms 内超时",
            ),
            ProbeError::Io(m) => text::concat4(
                "IOHID 错误：",
                io.as_str(),
                "；Karabiner 退化失败：",
                m.as_str(),
            ),
        },
    }
}

/// The outcome of a probe that went through both interfaces. It never fails: an
/// answer of the virtual keyboard is taken, with what is said of both attempts;
/// without one, the Fn key counts as missed.
pub fn after_karabiner(
    primary: Result<NativeProbeObservation, ProbeError>,
    fallback: Result<NativeProbeObservation, ProbeError>,
    budget: ProbeBudget,
) -> (r: Result<NativeProbeObservation, ProbeError>)
    ensures
        match fallback {
            Ok(answer) => r matches Ok(o) && text::opt_text(o.reason) == Some(
                answered_reason(primary, answer, budget),
            ) && o == (NativeProbeObservation { reason: o.reason, ..answer }),
            Err(error) => r matches Ok(o) && native_probe::is_miss(
                o,
                "IOHID/Karabiner"@,
                None,
                failed_reason(primary, error, budget),
            ),
        },
{
    match fallback {
        Ok(mut answer) => {
            let reason = answered_text(&primary, &answer, budget);
            answer.reason = Some(reason);
            Ok(answer)
        },
        Err(error) => {
            let reason = failed_text(&primary, &error, budget);
            Ok(native_probe::miss("IOHID/Karabiner", None, reason))
        },
    }
}

/// Letters and digits are told by themselves, in the order of their codes, other
/// known keys by their names, and all others by their code.
pub proof fn law_keys_are_told_apart(i: int, usage: u32)
    ensures
        0 <= i < 26 ==> usage_label((4 + i) as u32) == seq![(65 + i) as char],
        1 <= i <= 10 ==> usage_label((0x1d + i) as u32) == text::decimal_text(i as nat),
        usage_label(0x28) == "Enter"@,
        usage_label(0x29) == "Esc"@,
        usage_label(0x2a) == "Backspace"@,
        usage_label(0x2b) == "Tab"@,
        usage_label(0x2c) == "Space"@,
        usage_label(0x39) == "CapsLock"@,
        usage < 4 || (usage > 0x2c && usage != 0x39) ==> usage_label(usage) == "Usage(0x"@
            + text::hex_text(usage as nat) + ")"@,
{
}

} // verus!
