//! The hotkey: which keys can make it, how it is captured, and what is known of
//! the Fn key.
use vstd::prelude::*;

use crate::desktop::crypto::HotkeyBinding;
use crate::desktop::native_probe::{NativeProbeObservation, ProbeError};
use crate::{bounded, text};

verus! {

/// A key of the keyboard.
#[derive(Debug, Clone, Copy, PartialEq, Eq, Structural)]
pub enum Key {
    ShiftLeft,
    ShiftRight,
    ControlLeft,
    ControlRight,
    Alt,
    AltGr,
    MetaLeft,
    MetaRight,
    Space,
    Escape,
    Tab,
    Return,
    Backspace,
    UpArrow,
    DownArrow,
    LeftArrow,
    RightArrow,
    Home,
    End,
    PageUp,
    PageDown,
    CapsLock,
    Delete,
    Insert,
    F1,
    F2,
    F3,
    F4,
    F5,
    F6,
    F7,
    F8,
    F9,
    F10,
    F11,
    F12,
    Num0,
    Num1,
    Num2,
    Num3,
    Num4,
    Num5,
    Num6,
    Num7,
    Num8,
    Num9,
    KeyA,
    KeyB,
    KeyC,
    KeyD,
    KeyE,
    KeyF,
    KeyG,
    KeyH,
    KeyI,
    KeyJ,
    KeyK,
    KeyL,
    KeyM,
    KeyN,
    KeyO,
    KeyP,
    KeyQ,
    KeyR,
    KeyS,
    KeyT,
    KeyU,
    KeyV,
    KeyW,
    KeyX,
    KeyY,
    KeyZ,
    Minus,
    Equal,
    LeftBracket,
    RightBracket,
    SemiColon,
    Quote,
    Comma,
    Dot,
    Slash,
    BackSlash,
    BackQuote,
    Function,
    PrintScreen,
    ScrollLock,
    Pause,
    NumLock,
    KpDivide,
    KpMultiply,
    KpMinus,
    KpPlus,
    KpReturn,
    Kp0,
    Kp1,
    Kp2,
    Kp3,
    Kp4,
    Kp5,
    Kp6,
    Kp7,
    Kp8,
    Kp9,
    KpDelete,
    IntlBackslash,
    Unknown(u32),
}

/// The fixed name of a key, if it has one.
pub open spec fn key_name(key: Key) -> Option<Seq<char>> {
    match key {
        Key::Space => Some("Space"@),
        Key::Escape => Some("Esc"@),
        Key::Tab => Some("Tab"@),
        Key::Return => Some("Enter"@),
        Key::Backspace => Some("Backspace"@),
        Key::UpArrow => Some("ArrowUp"@),
        Key::DownArrow => Some("ArrowDown"@),
        Key::LeftArrow => Some("ArrowLeft"@),
        Key::RightArrow => Some("ArrowRight"@),
        Key::Home => Some("Home"@),
        Key::End => Some("End"@),
        Key::PageUp => Some("PageUp"@),
        Key::PageDown => Some("PageDown"@),
        Key::CapsLock => Some("CapsLock"@),
        Key::Delete => Some("Delete"@),
        Key::Insert => Some("Insert"@),
        Key::F1 => Some("F1"@),
        Key::F2 => Some("F2"@),
        Key::F3 => Some("F3"@),
        Key::F4 => Some("F4"@),
        Key::F5 => Some("F5"@),
        Key::F6 => Some("F6"@),
        Key::F7 => Some("F7"@),
        Key::F8 => Some("F8"@),
        Key::F9 => Some("F9"@),
        Key::F10 => Some("F10"@),
        Key::F11 => Some("F11"@),
        Key::F12 => Some("F12"@),
        Key::Num0 => Some("0"@),
        Key::Num1 => Some("1"@),
        Key::Num2 => Some("2"@),
        Key::Num3 => Some("3"@),
        Key::Num4 => Some("4"@),
        Key::Num5 => Some("5"@),
        Key::Num6 => Some("6"@),
        Key::Num7 => Some("7"@),
        Key::Num8 => Some("8"@),
        Key::Num9 => Some("9"@),
        Key::KeyA => Some("A"@),
        Key::KeyB => Some("B"@),
        Key::KeyC => Some("C"@),
        Key::KeyD => Some("D"@),
        Key::KeyE => Some("E"@),
        Key::KeyF => Some("F"@),
        Key::KeyG => Some("G"@),
        Key::KeyH => Some("H"@),
        Key::KeyI => Some("I"@),
        Key::KeyJ => Some("J"@),
        Key::KeyK => Some("K"@),
        Key::KeyL => Some("L"@),
        Key::KeyM => Some("M"@),
        Key::KeyN => Some("N"@),
        Key::KeyO => Some("O"@),
        Key::KeyP => Some("P"@),
        Key::KeyQ => Some("Q"@),
        Key::KeyR => Some("R"@),
        Key::KeyS => Some("S"@),
        Key::KeyT => Some("T"@),
        Key::KeyU => Some("U"@),
        Key::KeyV => Some("V"@),
        Key::KeyW => Some("W"@),
        Key::KeyX => Some("X"@),
        Key::KeyY => Some("Y"@),
        Key::KeyZ => Some("Z"@),
        Key::Minus => Some("-"@),
        Key::Equal => Some("="@),
        Key::LeftBracket => Some("["@),
        Key::RightBracket => Some("]"@),
        Key::SemiColon => Some(";"@),
        Key::Quote => Some("'"@),
        Key::Comma => Some(","@),
        Key::Dot => Some("."@),
        Key::Slash => Some("/"@),
        Key::BackSlash => Some("\\"@),
        Key::BackQuote => Some("`"@),
        Key::Function => Some("Fn"@),
        Key::PrintScreen => Some("PrintScreen"@),
        Key::ScrollLock => Some("ScrollLock"@),
        Key::Pause => Some("Pause"@),
        Key::NumLock => Some("NumLock"@),
        Key::KpDivide => Some("Kp/"@),
        Key::KpMultiply => Some("Kp*"@),
        Key::KpMinus => Some("Kp-"@),
        Key::KpPlus => Some("Kp+"@),
        Key::KpReturn => Some("KpEnter"@),
        Key::Kp0 => Some("NumPad0"@),
        Key::Kp1 => Some("NumPad1"@),
        Key::Kp2 => Some("NumPad2"@),
        Key::Kp3 => Some("NumPad3"@),
        Key::Kp4 => Some("NumPad4"@),
        Key::Kp5 => Some("NumPad5"@),
        Key::Kp6 => Some("NumPad6"@),
        Key::Kp7 => Some("NumPad7"@),
        Key::Kp8 => Some("NumPad8"@),
        Key::Kp9 => Some("NumPad9"@),
        Key::KpDelete => Some("NumPadDel"@),
        _ => None,
    }
}

/// The label of a key in a combination: its name, or the code of a key that is
/// not known. Modifiers have none.
pub open spec fn key_label(key: Key) -> Option<Seq<char>> {
    match key {
        Key::Unknown(code) => Some("Keycode("@ + text::decimal_text(code as nat) + ")"@),
        _ => key_name(key),
    }
}

fn fixed_label(key: Key) -> (r: Option<&'static str>)
    ensures
        match r {
            Some(label) => key_name(key) == Some(label@),
            None => key_name(key) is None,
        },
{
    match key {
        Key::Space => Some("Space"),
        Key::Escape => Some("Esc"),
        Key::Tab => Some("Tab"),
        Key::Return => Some("Enter"),
        Key::Backspace => Some("Backspace"),
        Key::UpArrow => Some("ArrowUp"),
        Key::DownArrow => Some("ArrowDown"),
        Key::LeftArrow => Some("ArrowLeft"),
        Key::RightArrow => Some("ArrowRight"),
        Key::Home => Some("Home"),
        Key::End => Some("End"),
        Key::PageUp => Some("PageUp"),
        Key::PageDown => Some("PageDown"),
        Key::CapsLock => Some("CapsLock"),
        Key::Delete => Some("Delete"),
        Key::Insert => Some("Insert"),
        Key::F1 => Some("F1"),
        Key::F2 => Some("F2"),
        Key::F3 => Some("F3"),
        Key::F4 => Some("F4"),
        Key::F5 => Some("F5"),
        Key::F6 => Some("F6"),
        Key::F7 => Some("F7"),
        Key::F8 => Some("F8"),
        Key::F9 => Some("F9"),
        Key::F10 => Some("F10"),
        Key::F11 => Some("F11"),
        Key::F12 => Some("F12"),
        Key::Num0 => Some("0"),
        Key::Num1 => Some("1"),
        Key::Num2 => Some("2"),
        Key::Num3 => Some("3"),
        Key::Num4 => Some("4"),
        Key::Num5 => Some("5"),
        Key::Num6 => Some("6"),
        Key::Num7 => Some("7"),
        Key::Num8 => Some("8"),
        Key::Num9 => Some("9"),
        Key::KeyA => Some("A"),
        Key::KeyB => Some("B"),
        Key::KeyC => Some("C"),
        Key::KeyD => Some("D"),
        Key::KeyE => Some("E"),
        Key::KeyF => Some("F"),
        Key::KeyG => Some("G"),
        Key::KeyH => Some("H"),
        Key::KeyI => Some("I"),
        Key::KeyJ => Some("J"),
        Key::KeyK => Some("K"),
        Key::KeyL => Some("L"),
        Key::KeyM => Some("M"),
        Key::KeyN => Some("N"),
        Key::KeyO => Some("O"),
        Key::KeyP => Some("P"),
        Key::KeyQ => Some("Q"),
        Key::KeyR => Some("R"),
        Key::KeyS => Some("S"),
        Key::KeyT => Some("T"),
        Key::KeyU => Some("U"),
        Key::KeyV => Some("V"),
        Key::KeyW => Some("W"),
        Key::KeyX => Some("X"),
        Key::KeyY => Some("Y"),
        Key::KeyZ => Some("Z"),
        Key::Minus => Some("-"),
        Key::Equal => Some("="),
        Key::LeftBracket => Some("["),
        Key::RightBracket => Some("]"),
        Key::SemiColon => Some(";"),
        Key::Quote => Some("'"),
        Key::Comma => Some(","),
        Key::Dot => Some("."),
        Key::Slash => Some("/"),
        Key::BackSlash => Some("\\"),
        Key::BackQuote => Some("`"),
        Key::Function => Some("Fn"),
        Key::PrintScreen => Some("PrintScreen"),
        Key::ScrollLock => Some("ScrollLock"),
        Key::Pause => Some("Pause"),
        Key::NumLock => Some("NumLock"),
        Key::KpDivide => Some("Kp/"),
        Key::KpMultiply => Some("Kp*"),
        Key::KpMinus => Some("Kp-"),
        Key::KpPlus => Some("Kp+"),
        Key::KpReturn => Some("KpEnter"),
        Key::Kp0 => Some("NumPad0"),
        Key::Kp1 => Some("NumPad1"),
        Key::Kp2 => Some("NumPad2"),
        Key::Kp3 => Some("NumPad3"),
        Key::Kp4 => Some("NumPad4"),
        Key::Kp5 => Some("NumPad5"),
        Key::Kp6 => Some("NumPad6"),
        Key::Kp7 => Some("NumPad7"),
        Key::Kp8 => Some("NumPad8"),
        Key::Kp9 => Some("NumPad9"),
        Key::KpDelete => Some("NumPadDel"),
        _ => None,
    }
}

/// Which modifier keys are held down.
#[derive(Debug, Clone, Copy, PartialEq, Eq, Structural)]
pub struct Modifiers {
    pub shift_left: bool,
    pub shift_right: bool,
    pub control_left: bool,
    pub control_right: bool,
    pub alt: bool,
    pub alt_gr: bool,
    pub meta_left: bool,
    pub meta_right: bool,
}

/// Whether a key only modifies others.
pub open spec fn is_modifier(key: Key) -> bool {
    key == Key::ShiftLeft || key == Key::ShiftRight || key == Key::ControlLeft || key
        == Key::ControlRight || key == Key::Alt || key == Key::AltGr || key == Key::MetaLeft || key
        == Key::MetaRight
}

/// The modifiers once `key` is held down or let go. Other keys change nothing.
pub open spec fn with_key(m: Modifiers, key: Key, down: bool) -> Modifiers {
    match key {
        Key::ShiftLeft => Modifiers { shift_left: down, ..m },
        Key::ShiftRight => Modifiers { shift_right: down, ..m },
        Key::ControlLeft => Modifiers { control_left: down, ..m },
        Key::ControlRight => Modifiers { control_right: down, ..m },
        Key::Alt => Modifiers { alt: down, ..m },
        Key::AltGr => Modifiers { alt_gr: down, ..m },
        Key::MetaLeft => Modifiers { meta_left: down, ..m },
        Key::MetaRight => Modifiers { meta_right: down, ..m },
        _ => m,
    }
}

/// The labels of the modifiers that are held down, in their usual order.
pub open spec fn modifier_labels(m: Modifiers, apple: bool) -> Seq<Seq<char>> {
    (if m.control_left || m.control_right {
        seq!["Ctrl"@]
    } else {
        Seq::empty()
    }) + (if m.alt || m.alt_gr {
        seq!["Alt"@]
    } else {
        Seq::empty()
    }) + (if m.shift_left || m.shift_right {
        seq!["Shift"@]
    } else {
        Seq::empty()
    }) + (if m.meta_left || m.meta_right {
        seq![
            if apple {
                "Cmd"@
            } else {
                "Win"@
            },
        ]
    } else {
        Seq::empty()
    })
}

/// Each label followed by a plus sign, one behind the other.
pub open spec fn plus_each(labels: Seq<Seq<char>>) -> Seq<char>
    decreases labels.len(),
{
    if labels.len() == 0 {
        Seq::empty()
    } else {
        plus_each(labels.drop_last()) + labels.last() + "+"@
    }
}

/// The combination of the held modifiers and a primary key, if that has a label.
pub open spec fn combination(m: Modifiers, primary: Key, apple: bool) -> Option<Seq<char>> {
    match key_label(primary) {
        Some(label) => Some(plus_each(modifier_labels(m, apple)) + label),
        None => None,
    }
}

/// What the capture of a combination ends with.
#[derive(Debug, Clone)]
pub enum CaptureSignal {
    Captured(String),
    Error(String),
}

/// Something that happens on the keyboard.
#[derive(Debug, Clone, Copy, PartialEq, Eq, Structural)]
pub enum KeyEvent {
    Press(Key),
    Release(Key),
    Other,
}

/// The result of a probe for the Fn key.
#[derive(Debug, Clone)]
pub struct FnProbeResult {
    pub supported: bool,
    pub latency_ms: Option<u128>,
    pub raw_latency_ns: Option<u128>,
    pub user_reaction_ms: Option<u128>,
    pub within_sla: Option<bool>,
    pub interface: Option<String>,
    pub device_origin: Option<String>,
    pub reason: Option<String>,
}

/// A probe that found no usable Fn key, for the given reason.
pub open spec fn is_unsupported(r: FnProbeResult, reason: Seq<char>) -> bool {
    &&& !r.supported
    &&& r.latency_ms is None
    &&& r.raw_latency_ns is None
    &&& r.user_reaction_ms is None
    &&& r.within_sla is None
    &&& r.interface is None
    &&& r.device_origin is None
    &&& r.reason matches Some(t) && t@ == reason
}

fn unsupported(reason: String) -> (r: FnProbeResult)
    ensures
        is_unsupported(r, reason@),
{
    FnProbeResult {
        supported: false,
        latency_ms: None,
        raw_latency_ns: None,
        user_reaction_ms: None,
        within_sla: None,
        interface: None,
        device_origin: None,
        reason: Some(reason),
    }
}

/// The state of the hotkey.
#[derive(Debug)]
pub struct HotkeyState {
    pub binding: HotkeyBinding,
    pub last_probe: Option<FnProbeResult>,
}

/// An entry in the log of probes.
#[derive(Debug, Clone)]
pub struct FnProbeLogEntry {
    pub timestamp_ms: u128,
    pub supported: bool,
    pub latency_ms: Option<u128>,
    pub raw_latency_ns: Option<u128>,
    pub user_reaction_ms: Option<u128>,
    pub within_sla: Option<bool>,
    pub interface: Option<String>,
    pub device_origin: Option<String>,
    pub reason: Option<String>,
}

/// How many probes the log keeps.
pub const MAX_PROBE_LOG: usize = 20;

/// `entry` logs `probe`.
pub open spec fn logs_probe(entry: FnProbeLogEntry, probe: FnProbeResult, timestamp_ms: u128) -> bool {
    &&& entry.timestamp_ms == timestamp_ms
    &&& entry.supported == probe.supported
    &&& entry.latency_ms == probe.latency_ms
    &&& entry.raw_latency_ns == probe.raw_latency_ns
    &&& entry.user_reaction_ms == probe.user_reaction_ms
    &&& entry.within_sla == probe.within_sla
    &&& text::opt_text(entry.interface) == text::opt_text(probe.interface)
    &&& text::opt_text(entry.device_origin) == text::opt_text(probe.device_origin)
    &&& text::opt_text(entry.reason) == text::opt_text(probe.reason)
}

/// Adds a probe to the log, which keeps the latest ones. A log that could not be
/// read counts as empty.
pub fn append_probe_log(
    log: Option<Vec<FnProbeLogEntry>>,
    probe: &FnProbeResult,
    timestamp_ms: u128,
) -> (r: Vec<FnProbeLogEntry>)
    ensures
        r@.len() > 0,
        logs_probe(r@.last(), *probe, timestamp_ms),
        r@ == bounded::retained(
            match log {
                Some(entries) => entries@,
                None => Seq::<FnProbeLogEntry>::empty(),
            },
            r@.last(),
            MAX_PROBE_LOG as nat,
        ),
{
    let mut entries: Vec<FnProbeLogEntry> = match log {
        Some(entries) => entries,
        None => Vec::new(),
    };
    let entry = FnProbeLogEntry {
        timestamp_ms,
        supported: probe.supported,
        latency_ms: probe.latency_ms,
        raw_latency_ns: probe.raw_latency_ns,
        user_reaction_ms: probe.user_reaction_ms,
        within_sla: probe.within_sla,
        interface: text::copy_opt(&probe.interface),
        device_origin: text::copy_opt(&probe.device_origin),
        reason: text::copy_opt(&probe.reason),
    };
    bounded::retain_with_limit(&mut entries, entry, MAX_PROBE_LOG);
    assert(entries@.last() == entry);
    entries
}

/// The combinations that the operating systems keep for themselves.
pub open spec fn reserved() -> Seq<Seq<char>> {
    seq![
        "Ctrl+Alt+Delete"@,
        "Ctrl+Shift+Esc"@,
        "Alt+F4"@,
        "Alt+Tab"@,
        "Cmd+Q"@,
        "Cmd+Option+Esc"@,
        "Cmd+Space"@,
        "Win+L"@,
        "Win+Space"@,
    ]
}

/// How fast the Fn key has to answer.
pub const PROBE_SLA_MS: u64 = 400;

/// The setting of the simulated probe.
pub open spec fn simulation(value: Seq<char>) -> Option<bool> {
    if text::ascii_lower_text(value) == text::ascii_lower_text("supported"@) {
        Some(true)
    } else if text::ascii_lower_text(value) == text::ascii_lower_text("unsupported"@) {
        Some(false)
    } else {
        None
    }
}

/// What the desktop shell knows of hotkeys in general.
pub struct HotkeyCompatibilityLayer {}

impl HotkeyCompatibilityLayer {
    /// The answer to a probe on a platform without one.
    pub fn probe_fn() -> (r: FnProbeResult)
        ensures
            is_unsupported(r, "当前平台尚未实现 Fn 捕获，请改用备用组合。"@),
    {
        unsupported("当前平台尚未实现 Fn 捕获，请改用备用组合。".to_owned())
    }

    /// The answer to a probe that is only simulated, if the setting asks for one.
    pub fn simulated_probe(value: &str) -> (r: Option<FnProbeResult>)
        ensures
            match simulation(value@) {
                None => r is None,
                Some(supported) => {
                    &&& r matches Some(probe)
                    &&& probe.supported == supported
                    &&& probe.latency_ms == if supported {
                        Some(1u128)
                    } else {
                        None
                    }
                    &&& probe.raw_latency_ns is None
                    &&& probe.user_reaction_ms == if supported {
                        Some(0u128)
                    } else {
                        None
                    }
                    &&& probe.within_sla == if supported {
                        Some(true)
                    } else {
                        None
                    }
                    &&& text::opt_text(probe.interface) == Some("simulated"@)
                    &&& text::opt_text(probe.device_origin) == Some("Simulated"@)
                    &&& text::opt_text(probe.reason) == if supported {
                        None
                    } else {
                        Some("模拟环境标记为不支持 Fn 捕获"@)
                    }
                },
            },
    {
        if text::same_ignoring_case(value, "supported") {
            Some(
                FnProbeResult {
                    supported: true,
                    latency_ms: Some(1),
                    raw_latency_ns: None,
                    user_reaction_ms: Some(0),
                    within_sla: Some(true),
                    interface: Some("simulated".to_owned()),
                    device_origin: Some("Simulated".to_owned()),
                    reason: None,
                },
            )
        } else if text::same_ignoring_case(value, "unsupported") {
            Some(
                FnProbeResult {
                    supported: false,
                    latency_ms: None,
                    raw_latency_ns: None,
                    user_reaction_ms: None,
                    within_sla: None,
                    interface: Some("simulated".to_owned()),
                    device_origin: Some("Simulated".to_owned()),
                    reason: Some("模拟环境标记为不支持 Fn 捕获".to_owned()),
                },
            )
        } else {
            None
        }
    }

    /// The result of a native probe. A latency counts as one millisecond at
    /// least.
    pub fn native_result(outcome: Result<NativeProbeObservation, ProbeError>) -> (r: FnProbeResult)
        ensures
            match outcome {
                Ok(o) => {
                    &&& r.supported == o.supported
                    &&& r.latency_ms == match o.latency_ns {
                        Some(ns) => Some(
                            if ns / 1_000_000 >= 1 {
                                (ns / 1_000_000) as u128
                            } else {
                                1
                            },
                        ),
                        None => None,
                    }
                    &&& r.raw_latency_ns == o.raw_latency_ns
                    &&& r.user_reaction_ms == match o.user_reaction_ns {
                        Some(ns) => Some((ns / 1_000_000) as u128),
                        None => None,
                    }
                    &&& r.within_sla == o.within_sla
                    &&& text::opt_text(r.interface) == Some(o.interface@)
                    &&& r.device_origin == o.device_origin
                    &&& r.reason == o.reason
                },
                Err(ProbeError::Timeout) => is_unsupported(
                    r,
                    "未在 400ms 内收到驱动回调，已建议录制备用组合"@,
                ),
                Err(ProbeError::Io(error)) => is_unsupported(r, "原生探测失败: "@ + error@),
            },
    {
        match outcome {
            Ok(o) => FnProbeResult {
                supported: o.supported,
                latency_ms: match o.latency_ns {
                    Some(ns) => {
                        let ms: u64 = ns / 1_000_000;
                        Some(
                            if ms >= 1 {
                                ms as u128
                            } else {
                                1
                            },
                        )
                    },
                    None => None,
                },
                raw_latency_ns: o.raw_latency_ns,
                user_reaction_ms: match o.user_reaction_ns {
                    Some(ns) => Some((ns / 1_000_000) as u128),
                    None => None,
                },
                within_sla: o.within_sla,
                interface: Some(o.interface),
                device_origin: o.device_origin,
                reason: o.reason,
            },
            Err(ProbeError::Timeout) => unsupported(
                "未在 400ms 内收到驱动回调，已建议录制备用组合".to_owned(),
            ),
            Err(ProbeError::Io(error)) => {
                let mut reason = "原生探测失败: ".to_owned();
                text::append_text(&mut reason, error.as_str());
                unsupported(reason)
            },
        }
    }

    /// The answer to a capture on a platform without one.
    pub fn capture_custom() -> (r: Result<String, String>)
        ensures
            r matches Err(e) && e@ == "当前平台未提供热键捕获能力"@,
    {
        Err("当前平台未提供热键捕获能力".to_owned())
    }

    /// The combinations that the operating systems keep for themselves.
    pub fn conflicts() -> (r: Vec<String>)
        ensures
            text::texts(r@) == reserved(),
    {
        let mut list: Vec<String> = Vec::new();
        list.push("Ctrl+Alt+Delete".to_owned());
        list.push("Ctrl+Shift+Esc".to_owned());
        list.push("Alt+F4".to_owned());
        list.push("Alt+Tab".to_owned());
        list.push("Cmd+Q".to_owned());
        list.push("Cmd+Option+Esc".to_owned());
        list.push("Cmd+Space".to_owned());
        list.push("Win+L".to_owned());
        list.push("Win+Space".to_owned());
        assert(text::texts(list@) =~= reserved());
        list
    }

    /// Whether a key only modifies others.
    pub fn is_modifier_key(key: Key) -> (r: bool)
        ensures
            r == is_modifier(key),
    {
        match key {
            Key::ShiftLeft | Key::ShiftRight | Key::ControlLeft | Key::ControlRight | Key::Alt
            | Key::AltGr | Key::MetaLeft | Key::MetaRight => true,
            _ => false,
        }
    }

    /// The label of a key in a combination.
    pub fn describe_key(key: Key) -> (r: Option<String>)
        ensures
            text::opt_text(r) == key_label(key),
    {
        match key {
            Key::Unknown(code) => {
                let mut label = "Keycode(".to_owned();
                text::append_text(&mut label, text::decimal(code as u64).as_str());
                text::append_text(&mut label, ")");
                Some(label)
            },
            _ => match fixed_label(key) {
                Some(label) => Some(label.to_owned()),
                None => None,
            },
        }
    }

    /// The combination of the held modifiers and a primary key. On Apple's
    /// keyboards the meta key is called differently.
    pub fn build_combination(modifiers: &Modifiers, primary: Key, apple: bool) -> (r: Option<String>)
        ensures
            text::opt_text(r) == combination(*modifiers, primary, apple),
    {
        let label = match Self::describe_key(primary) {
            Some(label) => label,
            None => {
                return None;
            },
        };
        let mut out = String::new();
        let ghost mut labels: Seq<Seq<char>> = Seq::empty();
        if modifiers.control_left || modifiers.control_right {
            text::append_text(&mut out, "Ctrl");
            text::append_text(&mut out, "+");
            proof {
                lemma_plus_push(labels, "Ctrl"@);
                labels = labels.push("Ctrl"@);
            }
        }
        if modifiers.alt || modifiers.alt_gr {
            text::append_text(&mut out, "Alt");
            text::append_text(&mut out, "+");
            proof {
                lemma_plus_push(labels, "Alt"@);
                labels = labels.push("Alt"@);
            }
        }
        if modifiers.shift_left || modifiers.shift_right {
            text::append_text(&mut out, "Shift");
            text::append_text(&mut out, "+");
            proof {
                lemma_plus_push(labels, "Shift"@);
                labels = labels.push("Shift"@);
            }
        }
        if modifiers.meta_left || modifiers.meta_right {
            let meta = if apple {
                "Cmd"
            } else {
                "Win"
            };
            text::append_text(&mut out, meta);
            text::append_text(&mut out, "+");
            proof {
                lemma_plus_push(labels, meta@);
                labels = labels.push(meta@);
            }
        }
        assert(labels =~= modifier_labels(*modifiers, apple));
        text::append_text(&mut out, label.as_str());
        Some(out)
    }
}

proof fn lemma_plus_push(labels: Seq<Seq<char>>, label: Seq<char>)
    ensures
        plus_each(labels.push(label)) == plus_each(labels) + label + "+"@,
{
    assert(labels.push(label).drop_last() =~= labels);
}

/// The capture of a combination: modifiers are collected until another key is
/// pressed.
pub struct HotkeyCapture {
    pub modifiers: Modifiers,
    pub apple: bool,
}

/// What a key event ends a capture with, if it does.
pub open spec fn capture_outcome(m: Modifiers, apple: bool, event: KeyEvent) -> Option<
    Result<Seq<char>, Seq<char>>,
> {
    match event {
        KeyEvent::Press(key) => if is_modifier(key) {
            None
        } else if key == Key::Function {
            Some(Err("Fn 键无法作为备用组合主键"@))
        } else {
            match combination(m, key, apple) {
                Some(c) => Some(Ok(c)),
                None => Some(Err("未识别的按键组合"@)),
            }
        },
        _ => None,
    }
}

impl HotkeyCapture {
    /// A capture in which no key is held down.
    pub fn new(apple: bool) -> (r: Self)
        ensures
            r.apple == apple,
            r.modifiers == (Modifiers {
                shift_left: false,
                shift_right: false,
                control_left: false,
                control_right: false,
                alt: false,
                alt_gr: false,
                meta_left: false,
                meta_right: false,
            }),
    {
        HotkeyCapture {
            modifiers: Modifiers {
                shift_left: false,
                shift_right: false,
                control_left: false,
                control_right: false,
                alt: false,
                alt_gr: false,
                meta_left: false,
                meta_right: false,
            },
            apple,
        }
    }

    fn hold(&mut self, key: Key, down: bool)
        ensures
            final(self).apple == old(self).apple,
            final(self).modifiers == with_key(old(self).modifiers, key, down),
    {
        match key {
            Key::ShiftLeft => {
                self.modifiers.shift_left = down;
            },
            Key::ShiftRight => {
                self.modifiers.shift_right = down;
            },
            Key::ControlLeft => {
                self.modifiers.control_left = down;
            },
            Key::ControlRight => {
                self.modifiers.control_right = down;
            },
            Key::Alt => {
                self.modifiers.alt = down;
            },
            Key::AltGr => {
                self.modifiers.alt_gr = down;
            },
            Key::MetaLeft => {
                self.modifiers.meta_left = down;
            },
            Key::MetaRight => {
                self.modifiers.meta_right = down;
            },
            _ => {},
        }
    }

    /// Takes a key event in. A capture ends with the first key that is not a
    /// modifier; the Fn key and keys without a label make no combination.
    pub fn on_event(&mut self, event: KeyEvent) -> (r: Option<CaptureSignal>)
        ensures
            final(self).apple == old(self).apple,
            final(self).modifiers == match event {
                KeyEvent::Press(key) => with_key(old(self).modifiers, key, true),
                KeyEvent::Release(key) => with_key(old(self).modifiers, key, false),
                KeyEvent::Other => old(self).modifiers,
            },
            match capture_outcome(old(self).modifiers, old(self).apple, event) {
                None => r is None,
                Some(Ok(c)) => r matches Some(CaptureSignal::Captured(t)) && t@ == c,
                Some(Err(e)) => r matches Some(CaptureSignal::Error(t)) && t@ == e,
            },
    {
        match event {
            KeyEvent::Press(key) => {
                self.hold(key, true);
                if HotkeyCompatibilityLayer::is_modifier_key(key) {
                    return None;
                }
                if key == Key::Function {
                    return Some(CaptureSignal::Error("Fn 键无法作为备用组合主键".to_owned()));
                }
                match HotkeyCompatibilityLayer::build_combination(
                    &self.modifiers,
                    key,
                    self.apple,
                ) {
                    Some(c) => Some(CaptureSignal::Captured(c)),
                    None => Some(CaptureSignal::Error("未识别的按键组合".to_owned())),
                }
            },
            KeyEvent::Release(key) => {
                self.hold(key, false);
                None
            },
            KeyEvent::Other => None,
        }
    }
}

/// The result of a capture, given its signal, or none if the time ran out.
pub fn capture_result(signal: Option<CaptureSignal>) -> (r: Result<String, String>)
    ensures
        match signal {
            Some(CaptureSignal::Captured(c)) => r == Ok::<String, String>(c),
            Some(CaptureSignal::Error(e)) => r == Err::<String, String>(e),
            None => r matches Err(e) && e@ == "等待组合键超时，请重试"@,
        },
{
    match signal {
        Some(CaptureSignal::Captured(c)) => Ok(c),
        Some(CaptureSignal::Error(e)) => Err(e),
        None => Err("等待组合键超时，请重试".to_owned()),
    }
}

/// Holding a modifier down and letting it go leaves the other modifiers as they
/// were and the modifier up.
pub proof fn law_release_undoes_press(m: Modifiers, key: Key)
    ensures
        with_key(with_key(m, key, true), key, false) == with_key(m, key, false),
        !is_modifier(key) ==> with_key(m, key, true) == m,
{
}

/// The modifiers without the Ctrl keys.
pub open spec fn without_ctrl(m: Modifiers) -> Modifiers {
    Modifiers { control_left: false, control_right: false, ..m }
}

/// The modifiers without the Alt keys.
pub open spec fn without_alt(m: Modifiers) -> Modifiers {
    Modifiers { alt: false, alt_gr: false, ..m }
}

/// The modifiers without the Shift keys.
pub open spec fn without_shift(m: Modifiers) -> Modifiers {
    Modifiers { shift_left: false, shift_right: false, ..m }
}

/// The modifiers without the meta keys.
pub open spec fn without_meta(m: Modifiers) -> Modifiers {
    Modifiers { meta_left: false, meta_right: false, ..m }
}

/// The held modifiers as they stand in a combination.
proof fn lemma_modifiers(m: Modifiers, apple: bool)
    ensures
        plus_each(modifier_labels(m, apple)) == (if m.control_left || m.control_right {
            "Ctrl"@ + "+"@
        } else {
            Seq::empty()
        }) + (if m.alt || m.alt_gr {
            "Alt"@ + "+"@
        } else {
            Seq::empty()
        }) + (if m.shift_left || m.shift_right {
            "Shift"@ + "+"@
        } else {
            Seq::empty()
        }) + (if m.meta_left || m.meta_right {
            (if apple {
                "Cmd"@
            } else {
                "Win"@
            }) + "+"@
        } else {
            Seq::empty()
        }),
{
    let none = Seq::<Seq<char>>::empty();
    let a = if m.control_left || m.control_right {
        none.push("Ctrl"@)
    } else {
        none
    };
    let b = if m.alt || m.alt_gr {
        a.push("Alt"@)
    } else {
        a
    };
    let c = if m.shift_left || m.shift_right {
        b.push("Shift"@)
    } else {
        b
    };
    let meta = if apple {
        "Cmd"@
    } else {
        "Win"@
    };
    let d = if m.meta_left || m.meta_right {
        c.push(meta)
    } else {
        c
    };
    lemma_plus_push(none, "Ctrl"@);
    lemma_plus_push(a, "Alt"@);
    lemma_plus_push(b, "Shift"@);
    lemma_plus_push(c, meta);
    assert(plus_each(none) =~= Seq::<char>::empty());
    assert(d =~= modifier_labels(m, apple));
    let empty = Seq::<char>::empty();
    let x = if m.control_left || m.control_right {
        "Ctrl"@ + "+"@
    } else {
        empty
    };
    let y = if m.alt || m.alt_gr {
        "Alt"@ + "+"@
    } else {
        empty
    };
    let z = if m.shift_left || m.shift_right {
        "Shift"@ + "+"@
    } else {
        empty
    };
    assert(plus_each(a) =~= x);
    assert(plus_each(b) =~= x + y);
    assert(plus_each(c) =~= x + y + z);
    assert(plus_each(d) =~= x + y + z + (if m.meta_left || m.meta_right {
        meta + "+"@
    } else {
        empty
    }));
}

/// Every modifier that is held stands before the key, each once whichever of its
/// keys are held, in one order: Ctrl, Alt, Shift and the meta key, which Apple
/// calls differently. Without a modifier a key stands alone.
pub proof fn law_modifiers_stand_before_the_key(m: Modifiers, key: Key, apple: bool)
    requires
        key_label(key) is Some,
    ensures
        combination(m, key, apple) is Some,
        ({
            let ctrl = m.control_left || m.control_right;
            let alt = m.alt || m.alt_gr;
            let shift = m.shift_left || m.shift_right;
            let meta = m.meta_left || m.meta_right;
            let text = combination(m, key, apple)->0;
            &&& ctrl ==> text == "Ctrl+"@ + combination(without_ctrl(m), key, apple)->0
            &&& !ctrl && alt ==> text == "Alt+"@ + combination(without_alt(m), key, apple)->0
            &&& !ctrl && !alt && shift ==> text == "Shift+"@ + combination(
                without_shift(m),
                key,
                apple,
            )->0
            &&& !ctrl && !alt && !shift && meta && apple ==> text == "Cmd+"@ + key_label(key)->0
            &&& !ctrl && !alt && !shift && meta && !apple ==> text == "Win+"@ + key_label(key)->0
            &&& !ctrl && !alt && !shift && !meta ==> text == key_label(key)->0
        }),
{
    reveal_strlit("Ctrl");
    reveal_strlit("Alt");
    reveal_strlit("Shift");
    reveal_strlit("Cmd");
    reveal_strlit("Win");
    reveal_strlit("+");
    reveal_strlit("Ctrl+");
    reveal_strlit("Alt+");
    reveal_strlit("Shift+");
    reveal_strlit("Cmd+");
    reveal_strlit("Win+");
    assert("Ctrl"@ + "+"@ =~= "Ctrl+"@);
    assert("Alt"@ + "+"@ =~= "Alt+"@);
    assert("Shift"@ + "+"@ =~= "Shift+"@);
    assert("Cmd"@ + "+"@ =~= "Cmd+"@);
    assert("Win"@ + "+"@ =~= "Win+"@);
    lemma_modifiers(m, apple);
    lemma_modifiers(without_ctrl(m), apple);
    lemma_modifiers(without_alt(m), apple);
    lemma_modifiers(without_shift(m), apple);
    let ctrl = m.control_left || m.control_right;
    let alt = m.alt || m.alt_gr;
    let shift = m.shift_left || m.shift_right;
    let meta = m.meta_left || m.meta_right;
    let text = combination(m, key, apple)->0;
    let label = key_label(key)->0;
    if ctrl {
        assert(text =~= "Ctrl+"@ + combination(without_ctrl(m), key, apple)->0);
    } else if alt {
        assert(text =~= "Alt+"@ + combination(without_alt(m), key, apple)->0);
    } else if shift {
        assert(text =~= "Shift+"@ + combination(without_shift(m), key, apple)->0);
    } else if meta {
        assert(apple ==> text =~= "Cmd+"@ + label);
        assert(!apple ==> text =~= "Win+"@ + label);
    } else {
        assert(text =~= label);
    }
}

/// A combination tells which modifiers were held: two that are the same for the
/// same key on the same system agree on Ctrl, Alt, Shift and the meta key.
pub proof fn law_combination_tells_the_modifiers(m: Modifiers, n: Modifiers, key: Key, apple: bool)
    requires
        key_label(key) is Some,
    ensures
        combination(m, key, apple) == combination(n, key, apple) <==> {
            &&& (m.control_left || m.control_right) == (n.control_left || n.control_right)
            &&& (m.alt || m.alt_gr) == (n.alt || n.alt_gr)
            &&& (m.shift_left || m.shift_right) == (n.shift_left || n.shift_right)
            &&& (m.meta_left || m.meta_right) == (n.meta_left || n.meta_right)
        },
{
    reveal_strlit("Ctrl");
    reveal_strlit("Alt");
    reveal_strlit("Shift");
    reveal_strlit("Cmd");
    reveal_strlit("Win");
    reveal_strlit("+");
    lemma_modifiers(m, apple);
    lemma_modifiers(n, apple);
    let a = combination(m, key, apple)->0;
    let b = combination(n, key, apple)->0;
    let ctrl = m.control_left || m.control_right;
    let alt = m.alt || m.alt_gr;
    let shift = m.shift_left || m.shift_right;
    let meta = m.meta_left || m.meta_right;
    if a == b {
        assert(a.len() == b.len());
        assert(ctrl == (n.control_left || n.control_right));
        assert(shift == (n.shift_left || n.shift_right));
        if alt != (n.alt || n.alt_gr) {
            let at: int = if ctrl {
                5
            } else {
                0
            };
            assert(a[at] != b[at]);
        }
    }
}

/// Alt with F4 is written as the systems write it, whichever Alt key is held, so
/// that it can be found among the combinations that they keep.
pub proof fn law_kept_combinations_are_written_alike(m: Modifiers)
    ensures
        m.alt || m.alt_gr ==> ({
            let only = Modifiers {
                alt: m.alt,
                alt_gr: m.alt_gr,
                shift_left: false,
                shift_right: false,
                control_left: false,
                control_right: false,
                meta_left: false,
                meta_right: false,
            };
            &&& combination(only, Key::F4, false) == Some("Alt+F4"@)
            &&& combination(only, Key::Tab, false) == Some("Alt+Tab"@)
        }),
        (m.meta_left || m.meta_right) ==> ({
            let only = Modifiers {
                meta_left: m.meta_left,
                meta_right: m.meta_right,
                alt: false,
                alt_gr: false,
                shift_left: false,
                shift_right: false,
                control_left: false,
                control_right: false,
            };
            &&& combination(only, Key::KeyQ, true) == Some("Cmd+Q"@)
            &&& combination(only, Key::Space, true) == Some("Cmd+Space"@)
            &&& combination(only, Key::KeyL, false) == Some("Win+L"@)
            &&& combination(only, Key::Space, false) == Some("Win+Space"@)
        }),
        (m.control_left || m.control_right) && (m.alt || m.alt_gr) && !m.shift_left
            && !m.shift_right && !m.meta_left && !m.meta_right ==> combination(
            m,
            Key::Delete,
            false,
        ) == Some("Ctrl+Alt+Delete"@),
        (m.control_left || m.control_right) && (m.shift_left || m.shift_right) && !m.alt
            && !m.alt_gr && !m.meta_left && !m.meta_right ==> combination(m, Key::Escape, false)
            == Some("Ctrl+Shift+Esc"@),
{
    reveal_strlit("Ctrl");
    reveal_strlit("Alt");
    reveal_strlit("Shift");
    reveal_strlit("Cmd");
    reveal_strlit("Win");
    reveal_strlit("+");
    reveal_strlit("F4");
    reveal_strlit("Tab");
    reveal_strlit("Q");
    reveal_strlit("L");
    reveal_strlit("Space");
    reveal_strlit("Delete");
    reveal_strlit("Esc");
    reveal_strlit("Alt+F4");
    reveal_strlit("Alt+Tab");
    reveal_strlit("Cmd+Q");
    reveal_strlit("Cmd+Space");
    reveal_strlit("Win+L");
    reveal_strlit("Win+Space");
    reveal_strlit("Ctrl+Alt+Delete");
    reveal_strlit("Ctrl+Shift+Esc");
    let none = Modifiers {
        alt: false,
        alt_gr: false,
        shift_left: false,
        shift_right: false,
        control_left: false,
        control_right: false,
        meta_left: false,
        meta_right: false,
    };
    let a = Modifiers { alt: m.alt, alt_gr: m.alt_gr, ..none };
    let w = Modifiers { meta_left: m.meta_left, meta_right: m.meta_right, ..none };
    lemma_modifiers(a, false);
    lemma_modifiers(w, false);
    lemma_modifiers(w, true);
    lemma_modifiers(m, false);
    if m.alt || m.alt_gr {
        assert(combination(a, Key::F4, false)->0 =~= "Alt+F4"@);
        assert(combination(a, Key::Tab, false)->0 =~= "Alt+Tab"@);
    }
    if m.meta_left || m.meta_right {
        assert(combination(w, Key::KeyQ, true)->0 =~= "Cmd+Q"@);
        assert(combination(w, Key::Space, true)->0 =~= "Cmd+Space"@);
        assert(combination(w, Key::KeyL, false)->0 =~= "Win+L"@);
        assert(combination(w, Key::Space, false)->0 =~= "Win+Space"@);
    }
    if (m.control_left || m.control_right) && (m.alt || m.alt_gr) && !m.shift_left
        && !m.shift_right && !m.meta_left && !m.meta_right {
        assert(combination(m, Key::Delete, false)->0 =~= "Ctrl+Alt+Delete"@);
    }
    if (m.control_left || m.control_right) && (m.shift_left || m.shift_right) && !m.alt && !m.alt_gr
        && !m.meta_left && !m.meta_right {
        assert(combination(m, Key::Escape, false)->0 =~= "Ctrl+Shift+Esc"@);
    }
}

/// The keys that carry one sign each carry it as their label: the letters in
/// the order of the alphabet, the digits, and the punctuation.
pub proof fn law_keys_carry_their_signs(i: int)
    ensures
        ({
            let keys = seq![
                Key::KeyA,
                Key::KeyB,
                Key::KeyC,
                Key::KeyD,
                Key::KeyE,
                Key::KeyF,
                Key::KeyG,
                Key::KeyH,
                Key::KeyI,
                Key::KeyJ,
                Key::KeyK,
                Key::KeyL,
                Key::KeyM,
                Key::KeyN,
                Key::KeyO,
                Key::KeyP,
                Key::KeyQ,
                Key::KeyR,
                Key::KeyS,
                Key::KeyT,
                Key::KeyU,
                Key::KeyV,
                Key::KeyW,
                Key::KeyX,
                Key::KeyY,
                Key::KeyZ,
            ];
            0 <= i < 26 ==> key_label(keys[i]) == Some(seq![(65 + i) as char])
        }),
        ({
            let keys = seq![
                Key::Num0,
                Key::Num1,
                Key::Num2,
                Key::Num3,
                Key::Num4,
                Key::Num5,
                Key::Num6,
                Key::Num7,
                Key::Num8,
                Key::Num9,
            ];
            0 <= i < 10 ==> key_label(keys[i]) == Some(seq![(48 + i) as char])
        }),
        ({
            let keys = seq![
                Key::Minus,
                Key::Equal,
                Key::LeftBracket,
                Key::RightBracket,
                Key::SemiColon,
                Key::Quote,
                Key::Comma,
                Key::Dot,
                Key::Slash,
                Key::BackSlash,
                Key::BackQuote,
            ];
            let signs = seq!['-', '=', '[', ']', ';', '\'', ',', '.', '/', '\\', '`'];
            0 <= i < 11 ==> key_label(keys[i]) == Some(seq![signs[i]])
        }),
{
    reveal_strlit("A");
    reveal_strlit("B");
    reveal_strlit("C");
    reveal_strlit("D");
    reveal_strlit("E");
    reveal_strlit("F");
    reveal_strlit("G");
    reveal_strlit("H");
    reveal_strlit("I");
    reveal_strlit("J");
    reveal_strlit("K");
    reveal_strlit("L");
    reveal_strlit("M");
    reveal_strlit("N");
    reveal_strlit("O");
    reveal_strlit("P");
    reveal_strlit("Q");
    reveal_strlit("R");
    reveal_strlit("S");
    reveal_strlit("T");
    reveal_strlit("U");
    reveal_strlit("V");
    reveal_strlit("W");
    reveal_strlit("X");
    reveal_strlit("Y");
    reveal_strlit("Z");
    reveal_strlit("0");
    reveal_strlit("1");
    reveal_strlit("2");
    reveal_strlit("3");
    reveal_strlit("4");
    reveal_strlit("5");
    reveal_strlit("6");
    reveal_strlit("7");
    reveal_strlit("8");
    reveal_strlit("9");
    reveal_strlit("-");
    reveal_strlit("=");
    reveal_strlit("[");
    reveal_strlit("]");
    reveal_strlit(";");
    reveal_strlit("'");
    reveal_strlit(",");
    reveal_strlit(".");
    reveal_strlit("/");
    reveal_strlit("\\");
    reveal_strlit("`");
    assert("A"@ =~= seq!['A']);
    assert("B"@ =~= seq!['B']);
    assert("C"@ =~= seq!['C']);
    assert("D"@ =~= seq!['D']);
    assert("E"@ =~= seq!['E']);
    assert("F"@ =~= seq!['F']);
    assert("G"@ =~= seq!['G']);
    assert("H"@ =~= seq!['H']);
    assert("I"@ =~= seq!['I']);
    assert("J"@ =~= seq!['J']);
    assert("K"@ =~= seq!['K']);
    assert("L"@ =~= seq!['L']);
    assert("M"@ =~= seq!['M']);
    assert("N"@ =~= seq!['N']);
    assert("O"@ =~= seq!['O']);
    assert("P"@ =~= seq!['P']);
    assert("Q"@ =~= seq!['Q']);
    assert("R"@ =~= seq!['R']);
    assert("S"@ =~= seq!['S']);
    assert("T"@ =~= seq!['T']);
    assert("U"@ =~= seq!['U']);
    assert("V"@ =~= seq!['V']);
    assert("W"@ =~= seq!['W']);
    assert("X"@ =~= seq!['X']);
    assert("Y"@ =~= seq!['Y']);
    assert("Z"@ =~= seq!['Z']);
    assert("0"@ =~= seq!['0']);
    assert("1"@ =~= seq!['1']);
    assert("2"@ =~= seq!['2']);
    assert("3"@ =~= seq!['3']);
    assert("4"@ =~= seq!['4']);
    assert("5"@ =~= seq!['5']);
    assert("6"@ =~= seq!['6']);
    assert("7"@ =~= seq!['7']);
    assert("8"@ =~= seq!['8']);
    assert("9"@ =~= seq!['9']);
    assert("-"@ =~= seq!['-']);
    assert("="@ =~= seq!['=']);
    assert("["@ =~= seq!['[']);
    assert("]"@ =~= seq![']']);
    assert(";"@ =~= seq![';']);
    assert("'"@ =~= seq!['\'']);
    assert(","@ =~= seq![',']);
    assert("."@ =~= seq!['.']);
    assert("/"@ =~= seq!['/']);
    assert("\\"@ =~= seq!['\\']);
    assert("`"@ =~= seq!['`']);
}

/// The keys of a numbered row carry its name and their number: the function
/// keys from one on, the digits of the number pad from zero on.
pub proof fn law_numbered_keys_carry_their_number(i: int)
    ensures
        ({
            let keys = seq![
                Key::F1,
                Key::F2,
                Key::F3,
                Key::F4,
                Key::F5,
                Key::F6,
                Key::F7,
                Key::F8,
                Key::F9,
                Key::F10,
                Key::F11,
                Key::F12,
            ];
            0 <= i < 12 ==> key_label(keys[i]) == Some("F"@ + text::decimal_text((i + 1) as nat))
        }),
        ({
            let keys = seq![
                Key::Kp0,
                Key::Kp1,
                Key::Kp2,
                Key::Kp3,
                Key::Kp4,
                Key::Kp5,
                Key::Kp6,
                Key::Kp7,
                Key::Kp8,
                Key::Kp9,
            ];
            0 <= i < 10 ==> key_label(keys[i]) == Some("NumPad"@ + text::decimal_text(i as nat))
        }),
{
    reveal_with_fuel(text::decimal_text, 3);
    reveal_strlit("F");
    reveal_strlit("NumPad");
    reveal_strlit("F1");
    reveal_strlit("F2");
    reveal_strlit("F3");
    reveal_strlit("F4");
    reveal_strlit("F5");
    reveal_strlit("F6");
    reveal_strlit("F7");
    reveal_strlit("F8");
    reveal_strlit("F9");
    reveal_strlit("F10");
    reveal_strlit("F11");
    reveal_strlit("F12");
    reveal_strlit("NumPad0");
    reveal_strlit("NumPad1");
    reveal_strlit("NumPad2");
    reveal_strlit("NumPad3");
    reveal_strlit("NumPad4");
    reveal_strlit("NumPad5");
    reveal_strlit("NumPad6");
    reveal_strlit("NumPad7");
    reveal_strlit("NumPad8");
    reveal_strlit("NumPad9");
    assert("F1"@ =~= "F"@ + text::decimal_text(1));
    assert("F2"@ =~= "F"@ + text::decimal_text(2));
    assert("F3"@ =~= "F"@ + text::decimal_text(3));
    assert("F4"@ =~= "F"@ + text::decimal_text(4));
    assert("F5"@ =~= "F"@ + text::decimal_text(5));
    assert("F6"@ =~= "F"@ + text::decimal_text(6));
    assert("F7"@ =~= "F"@ + text::decimal_text(7));
    assert("F8"@ =~= "F"@ + text::decimal_text(8));
    assert("F9"@ =~= "F"@ + text::decimal_text(9));
    assert("F10"@ =~= "F"@ + text::decimal_text(10));
    assert("F11"@ =~= "F"@ + text::decimal_text(11));
    assert("F12"@ =~= "F"@ + text::decimal_text(12));
    assert("NumPad0"@ =~= "NumPad"@ + text::decimal_text(0));
    assert("NumPad1"@ =~= "NumPad"@ + text::decimal_text(1));
    assert("NumPad2"@ =~= "NumPad"@ + text::decimal_text(2));
    assert("NumPad3"@ =~= "NumPad"@ + text::decimal_text(3));
    assert("NumPad4"@ =~= "NumPad"@ + text::decimal_text(4));
    assert("NumPad5"@ =~= "NumPad"@ + text::decimal_text(5));
    assert("NumPad6"@ =~= "NumPad"@ + text::decimal_text(6));
    assert("NumPad7"@ =~= "NumPad"@ + text::decimal_text(7));
    assert("NumPad8"@ =~= "NumPad"@ + text::decimal_text(8));
    assert("NumPad9"@ =~= "NumPad"@ + text::decimal_text(9));
}

/// The other keys carry their names, and a key that is not known carries its
/// code, which tells it from every other. Only the modifiers and one key of
/// international keyboards carry nothing.
pub proof fn law_other_keys_carry_their_names(i: int, code: u32, other: u32, key: Key)
    ensures
        ({
            let names = seq![
                (Key::Space, "Space"@),
                (Key::Escape, "Esc"@),
                (Key::Tab, "Tab"@),
                (Key::Return, "Enter"@),
                (Key::Backspace, "Backspace"@),
                (Key::UpArrow, "ArrowUp"@),
                (Key::DownArrow, "ArrowDown"@),
                (Key::LeftArrow, "ArrowLeft"@),
                (Key::RightArrow, "ArrowRight"@),
                (Key::Home, "Home"@),
                (Key::End, "End"@),
                (Key::PageUp, "PageUp"@),
                (Key::PageDown, "PageDown"@),
                (Key::CapsLock, "CapsLock"@),
                (Key::Delete, "Delete"@),
                (Key::Insert, "Insert"@),
                (Key::Function, "Fn"@),
                (Key::PrintScreen, "PrintScreen"@),
                (Key::ScrollLock, "ScrollLock"@),
                (Key::Pause, "Pause"@),
                (Key::NumLock, "NumLock"@),
                (Key::KpDivide, "Kp/"@),
                (Key::KpMultiply, "Kp*"@),
                (Key::KpMinus, "Kp-"@),
                (Key::KpPlus, "Kp+"@),
                (Key::KpReturn, "KpEnter"@),
                (Key::KpDelete, "NumPadDel"@),
            ];
            0 <= i < 27 ==> key_label(names[i].0) == Some(names[i].1)
        }),
        key_label(Key::Unknown(code)) == Some(
            "Keycode("@ + text::decimal_text(code as nat) + ")"@,
        ),
        key_label(Key::Unknown(code)) == key_label(Key::Unknown(other)) ==> code == other,
        key_label(key) is None <==> key == Key::ShiftLeft || key == Key::ShiftRight || key
            == Key::ControlLeft || key == Key::ControlRight || key == Key::Alt || key == Key::AltGr
            || key == Key::MetaLeft || key == Key::MetaRight || key == Key::IntlBackslash,
{
    let a = text::decimal_text(code as nat);
    let b = text::decimal_text(other as nat);
    let head = "Keycode("@;
    let tail = ")"@;
    if head + a + tail == head + b + tail {
        assert((head + a + tail).len() == (head + b + tail).len());
        assert((head + a + tail).subrange(head.len() as int, (head.len() + a.len()) as int) =~= a);
        assert((head + b + tail).subrange(head.len() as int, (head.len() + b.len()) as int) =~= b);
        text::lemma_decimal_injective(code as nat, other as nat);
    }
}

/// Each modifier key is noted for itself, and no other key is noted at all.
pub proof fn law_each_modifier_key_is_noted(m: Modifiers, key: Key, down: bool)
    ensures
        with_key(m, Key::ShiftLeft, down) == (Modifiers { shift_left: down, ..m }),
        with_key(m, Key::ShiftRight, down) == (Modifiers { shift_right: down, ..m }),
        with_key(m, Key::ControlLeft, down) == (Modifiers { control_left: down, ..m }),
        with_key(m, Key::ControlRight, down) == (Modifiers { control_right: down, ..m }),
        with_key(m, Key::Alt, down) == (Modifiers { alt: down, ..m }),
        with_key(m, Key::AltGr, down) == (Modifiers { alt_gr: down, ..m }),
        with_key(m, Key::MetaLeft, down) == (Modifiers { meta_left: down, ..m }),
        with_key(m, Key::MetaRight, down) == (Modifiers { meta_right: down, ..m }),
        !(key == Key::ShiftLeft || key == Key::ShiftRight || key == Key::ControlLeft || key
            == Key::ControlRight || key == Key::Alt || key == Key::AltGr || key == Key::MetaLeft
            || key == Key::MetaRight) ==> with_key(m, key, down) == m,
{
}

/// A capture goes on while modifiers are pressed and keys are let go, and ends
/// with the first other key: with its combination if it has a label, except for
/// the Fn key, which makes none.
pub proof fn law_capture_ends_with_the_first_other_key(m: Modifiers, apple: bool, key: Key)
    ensures
        capture_outcome(m, apple, KeyEvent::Release(key)) is None,
        capture_outcome(m, apple, KeyEvent::Other) is None,
        ({
            let modifier = key == Key::ShiftLeft || key == Key::ShiftRight || key
                == Key::ControlLeft || key == Key::ControlRight || key == Key::Alt || key
                == Key::AltGr || key == Key::MetaLeft || key == Key::MetaRight;
            match capture_outcome(m, apple, KeyEvent::Press(key)) {
                None => modifier,
                Some(Ok(c)) => !modifier && key != Key::Function && combination(m, key, apple)
                    == Some(c),
                Some(Err(why)) => !modifier && (key == Key::Function || key_label(key) is None)
                    && why == if key == Key::Function {
                    "Fn 键无法作为备用组合主键"@
                } else {
                    "未识别的按键组合"@
                },
            }
        }),
{
}

} // verus!
