//! Probing the keyboard driver for the Fn key: what the events of the platform
//! interfaces mean, and how a probe falls back to a second interface.
pub mod macos;
pub mod windows;

use vstd::prelude::*;

use crate::text;

verus! {

/// How fast the Fn key has to answer, in nanoseconds.
pub const SLA_NS: u64 = 400_000_000;

/// What a probe found out.
#[derive(Debug, Clone)]
pub struct NativeProbeObservation {
    pub supported: bool,
    pub latency_ns: Option<u64>,
    pub raw_latency_ns: Option<u128>,
    pub user_reaction_ns: Option<u64>,
    pub within_sla: Option<bool>,
    pub device_origin: Option<String>,
    pub interface: String,
    pub reason: Option<String>,
}

/// Why a probe failed.
#[derive(Debug, Clone)]
pub enum ProbeError {
    Timeout,
    Io(String),
}

/// The words of an error.
pub open spec fn error_text(e: ProbeError) -> Seq<char> {
    match e {
        ProbeError::Timeout => "Fn 探测超时"@,
        ProbeError::Io(message) => message@,
    }
}

impl ProbeError {
    /// The words of the error.
    pub fn message(&self) -> (r: String)
        ensures
            r@ == error_text(*self),
    {
        match self {
            ProbeError::Timeout => "Fn 探测超时".to_owned(),
            ProbeError::Io(message) => message.clone(),
        }
    }
}

/// An event that an interface reports to a probe.
#[derive(Debug, Clone)]
pub enum ProbeEvent {
    /// The Fn key was pressed.
    Fn { latency_ns: u64, raw_ns: u128, reaction_ns: u64, device_origin: Option<String> },
    /// Another key was pressed.
    Other(String),
    /// The interface failed.
    Error(String),
}

/// An observation without the Fn key.
pub open spec fn is_miss(
    o: NativeProbeObservation,
    interface: Seq<char>,
    device_origin: Option<Seq<char>>,
    reason: Seq<char>,
) -> bool {
    &&& !o.supported
    &&& o.latency_ns is None
    &&& o.raw_latency_ns is None
    &&& o.user_reaction_ns is None
    &&& o.within_sla is None
    &&& text::opt_text(o.device_origin) == device_origin
    &&& o.interface@ == interface
    &&& text::opt_text(o.reason) == Some(reason)
}

/// An observation without the Fn key.
pub fn miss(interface: &str, device_origin: Option<String>, reason: String) -> (o:
    NativeProbeObservation)
    ensures
        is_miss(o, interface@, text::opt_text(device_origin), reason@),
{
    NativeProbeObservation {
        supported: false,
        latency_ns: None,
        raw_latency_ns: None,
        user_reaction_ns: None,
        within_sla: None,
        device_origin,
        interface: interface.to_owned(),
        reason: Some(reason),
    }
}

/// What is said of an answer that came too late.
pub open spec fn late_text(reaction_ns: u64) -> Seq<char> {
    "Fn 驱动回调耗时 "@ + text::decimal_text((reaction_ns / 1_000_000) as nat)
        + "ms，超出 400ms SLA"@
}

/// The outcome of a probe through `interface`, given the first event, or none if
/// the time ran out.
pub fn observe(interface: &str, event: Option<ProbeEvent>) -> (r: Result<
    NativeProbeObservation,
    ProbeError,
>)
    ensures
        match event {
            Some(ProbeEvent::Fn { latency_ns, raw_ns, reaction_ns, device_origin }) => {
                &&& r matches Ok(o)
                &&& o.supported
                &&& o.latency_ns == Some(latency_ns)
                &&& o.raw_latency_ns == Some(raw_ns)
                &&& o.user_reaction_ns == Some(reaction_ns)
                &&& o.within_sla == Some(reaction_ns <= SLA_NS)
                &&& o.device_origin == device_origin
                &&& o.interface@ == interface@
                &&& text::opt_text(o.reason) == if reaction_ns <= SLA_NS {
                    None
                } else {
                    Some(late_text(reaction_ns))
                }
            },
            Some(ProbeEvent::Other(label)) => r matches Ok(o) && is_miss(
                o,
                interface@,
                None,
                "检测到按键 "@ + label@ + "，未捕获到 Fn"@,
            ),
            Some(ProbeEvent::Error(reason)) => r == Err::<NativeProbeObservation, ProbeError>(
                ProbeError::Io(reason),
            ),
            None => r matches Err(ProbeError::Timeout),
        },
{
    match event {
        Some(ProbeEvent::Fn { latency_ns, raw_ns, reaction_ns, device_origin }) => {
            let within_sla = reaction_ns <= SLA_NS;
            Ok(
                NativeProbeObservation {
                    supported: true,
                    latency_ns: Some(latency_ns),
                    raw_latency_ns: Some(raw_ns),
                    user_reaction_ns: Some(reaction_ns),
                    within_sla: Some(within_sla),
                    device_origin,
                    interface: interface.to_owned(),
                    reason: if within_sla {
                        None
                    } else {
                        Some(
                            text::concat3(
                                "Fn 驱动回调耗时 ",
                                text::decimal(reaction_ns / 1_000_000).as_str(),
                                "ms，超出 400ms SLA",
                            ),
                        )
                    },
                },
            )
        },
        Some(ProbeEvent::Other(label)) => Ok(
            miss(
                interface,
                None,
                text::concat3("检测到按键 ", label.as_str(), "，未捕获到 Fn"),
            ),
        ),
        Some(ProbeEvent::Error(reason)) => Err(ProbeError::Io(reason)),
        None => Err(ProbeError::Timeout),
    }
}

/// The share of a probe's time that the first interface gets.
pub open spec fn primary_share(timeout_ns: u64) -> u64 {
    if timeout_ns > 240_000_000 {
        240_000_000
    } else if timeout_ns > 120_000_000 {
        (timeout_ns - 120_000_000) as u64
    } else {
        timeout_ns / 2
    }
}

/// How the time of a probe is shared between its two interfaces.
#[derive(Debug, Clone, Copy, PartialEq, Eq, Structural)]
pub struct ProbeBudget {
    pub primary_ns: u64,
    pub fallback_ns: u64,
}

/// Shares the time of a probe between its two interfaces.
pub fn split_budget(timeout_ns: u64) -> (r: ProbeBudget)
    ensures
        r.primary_ns == primary_share(timeout_ns),
        r.primary_ns + r.fallback_ns == timeout_ns,
{
    let primary_ns: u64 = if timeout_ns > 240_000_000 {
        240_000_000
    } else if timeout_ns > 120_000_000 {
        timeout_ns - 120_000_000
    } else {
        timeout_ns / 2
    };
    ProbeBudget { primary_ns, fallback_ns: timeout_ns - primary_ns }
}

/// What a probe does after its first interface is done.
pub enum ProbeStep {
    /// It is over, with this outcome.
    Done(Result<NativeProbeObservation, ProbeError>),
    /// The second interface gets its turn; the first one came to this.
    Fallback(Result<NativeProbeObservation, ProbeError>),
}

/// The time always suffices for a second attempt: whenever there is any time at
/// all, some is left for the second interface.
pub proof fn law_fallback_has_time(timeout_ns: u64)
    ensures
        primary_share(timeout_ns) <= timeout_ns,
        timeout_ns > 0 ==> primary_share(timeout_ns) < timeout_ns,
{
}

/// The answer to a probe on a platform without one.
pub fn probe_fn(timeout_ns: u64) -> (r: Result<NativeProbeObservation, ProbeError>)
    ensures
        r matches Err(ProbeError::Io(e)) && e@ == "当前平台未实现原生 Fn 探测"@,
{
    Err(ProbeError::Io("当前平台未实现原生 Fn 探测".to_owned()))
}

/// The first interface gets up to 240 milliseconds; of less than that, 120 are
/// kept for the second one, and where there is not even as much, both get half.
pub proof fn law_time_is_shared(timeout_ns: u64)
    ensures
        primary_share(timeout_ns) <= 240_000_000,
        120_000_000 < timeout_ns <= 240_000_000 ==> timeout_ns - primary_share(timeout_ns)
            == 120_000_000,
        timeout_ns > 240_000_000 ==> primary_share(timeout_ns) == 240_000_000,
        timeout_ns <= 120_000_000 ==> primary_share(timeout_ns) == timeout_ns / 2,
{
}

/// The Fn key has to answer within 400 milliseconds, and an answer that came too
/// late is told with the time it took.
pub proof fn law_late_answers_are_told(reaction_ns: u64)
    ensures
        SLA_NS == 400 * 1_000_000,
        late_text(reaction_ns) == "Fn 驱动回调耗时 "@ + text::decimal_text(
            (reaction_ns / 1_000_000) as nat,
        ) + "ms，超出 400ms SLA"@,
        error_text(ProbeError::Timeout) == "Fn 探测超时"@,
{
}

} // verus!
