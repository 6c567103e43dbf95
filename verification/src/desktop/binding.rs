//! Choosing the hotkey: what a probe for the Fn key leads to, which combinations
//! are taken, and the one that the user settles on.
use vstd::prelude::*;

use crate::desktop::crypto::{HotkeyBinding, HotkeySource};
use crate::desktop::dsp::{self, FrameWindowSetting};
use crate::desktop::hotkey::{self, FnProbeResult, HotkeyCompatibilityLayer, HotkeyState};
use crate::desktop::state::AppState;
use crate::text;

verus! {

/// A phase of the session and what there is to say of it.
#[derive(Debug)]
pub struct Phase {
    pub name: String,
    pub detail: String,
}

/// The texts of phases.
pub open spec fn phase_texts(list: Seq<Phase>) -> Seq<(Seq<char>, Seq<char>)> {
    list.map_values(|p: Phase| (p.name@, p.detail@))
}

/// A phase with these texts.
pub fn phase(name: &str, detail: &str) -> (r: Phase)
    ensures
        r.name@ == name@,
        r.detail@ == detail@,
{
    Phase { name: name.to_owned(), detail: detail.to_owned() }
}

/// Whether a probe showed an Fn key that answers too late.
pub open spec fn is_late(probe: FnProbeResult) -> bool {
    probe.within_sla == Some(false)
}

/// The window that a probe calls for: the short one unless the Fn key answers in
/// time, or nothing is known of that.
pub open spec fn window_for(probe: FnProbeResult) -> FrameWindowSetting {
    if probe.supported && !is_late(probe) {
        FrameWindowSetting::Default
    } else {
        FrameWindowSetting::Fallback
    }
}

/// Why a probe calls for the short window.
pub open spec fn window_reason(probe: FnProbeResult) -> Option<Seq<char>> {
    if !probe.supported {
        Some("Fn 捕获失败，保持 100ms 帧窗口"@)
    } else if is_late(probe) {
        Some(
            match probe.latency_ms {
                Some(ms) => "Fn 延迟 "@ + text::decimal_text(ms as nat) + "ms 超出 400ms SLA"@,
                None => "Fn 延迟超出 400ms SLA"@,
            },
        )
    } else {
        None
    }
}

/// The window that a probe calls for, and why.
pub fn choose_window(probe: &FnProbeResult) -> (r: (FrameWindowSetting, Option<String>))
    ensures
        r.0 == window_for(*probe),
        text::opt_text(r.1) == window_reason(*probe),
{
    if !probe.supported {
        return (
            FrameWindowSetting::Fallback,
            Some("Fn 捕获失败，保持 100ms 帧窗口".to_owned()),
        );
    }
    match probe.within_sla {
        Some(false) => {
            let reason = match probe.latency_ms {
                Some(ms) => text::concat3(
                    "Fn 延迟 ",
                    text::decimal_wide(ms).as_str(),
                    "ms 超出 400ms SLA",
                ),
                None => "Fn 延迟超出 400ms SLA".to_owned(),
            };
            (FrameWindowSetting::Fallback, Some(reason))
        },
        _ => (FrameWindowSetting::Default, None),
    }
}

/// What is said of the window.
pub open spec fn window_detail(mode: FrameWindowSetting, reason: Option<Seq<char>>) -> Seq<char> {
    let length = "帧窗口 "@ + text::decimal_text(dsp::window_ms(mode) as nat) + "ms"@;
    match reason {
        Some(why) => length + "（"@ + why + "）"@,
        None => length,
    }
}

/// What is said of the window.
pub fn describe_window(mode: FrameWindowSetting, reason: &Option<String>) -> (r: String)
    ensures
        r@ == window_detail(mode, text::opt_text(*reason)),
{
    let length = text::concat3(
        "帧窗口 ",
        text::decimal(mode.duration_ms() as u64).as_str(),
        "ms",
    );
    match reason {
        Some(why) => text::concat4(length.as_str(), "（", why.as_str(), "）"),
        None => length,
    }
}

/// What is said of how fast the Fn key answered.
pub open spec fn latency_detail(probe: FnProbeResult) -> Seq<char> {
    match probe.latency_ms {
        Some(ms) => "Fn 驱动延迟 "@ + text::decimal_text(ms as nat) + "ms（"@ + (
        match probe.within_sla {
            Some(true) => "满足 400ms SLA"@,
            Some(false) => "超出 400ms SLA"@,
            None => "SLA 未知"@,
        }) + "）"@,
        None => "Fn 驱动延迟未知，已记录回调"@,
    }
}

fn describe_latency(probe: &FnProbeResult) -> (r: String)
    ensures
        r@ == latency_detail(*probe),
{
    match probe.latency_ms {
        Some(ms) => {
            let verdict = match probe.within_sla {
                Some(true) => "满足 400ms SLA",
                Some(false) => "超出 400ms SLA",
                None => "SLA 未知",
            };
            text::concat5(
                "Fn 驱动延迟 ",
                text::decimal_wide(ms).as_str(),
                "ms（",
                verdict,
                "）",
            )
        },
        None => "Fn 驱动延迟未知，已记录回调".to_owned(),
    }
}

/// What is said of how the Fn key was caught.
pub open spec fn interface_detail(probe: FnProbeResult) -> Seq<char> {
    match probe.interface {
        Some(name) => "Fn 捕获接口: "@ + name@,
        None => "Fn 捕获回调已触发"@,
    }
}

/// The advice where no Fn key can be caught and nobody knows why.
pub open spec fn advice() -> Seq<char> {
    "Fn 捕获失败，已建议录制备用组合"@
}

/// The phases that follow a probe.
pub open spec fn probe_phases(probe: FnProbeResult, window: Seq<char>) -> Seq<
    (Seq<char>, Seq<char>),
> {
    if probe.supported {
        seq![
            ("Priming"@, interface_detail(probe) + " | "@ + window),
            ("PreRoll"@, latency_detail(probe) + " | "@ + window),
            ("Ready"@, "Fn key captured; session ready"@),
        ]
    } else {
        seq![
            (
                "PreRoll"@,
                (match probe.reason {
                    Some(why) => why@,
                    None => advice(),
                }) + " | "@ + window,
            ),
            (
                "Fallback"@,
                (match probe.reason {
                    Some(why) => if text::holds_text(why@, "Fn"@) {
                        why@
                    } else {
                        "Fn 捕获失败："@ + why@
                    },
                    None => advice(),
                }) + " | "@ + window,
            ),
        ]
    }
}

fn with_window(detail: &str, window: &str) -> (r: String)
    ensures
        r@ == detail@ + " | "@ + window@,
{
    text::concat3(detail, " | ", window)
}

/// The phases that follow a probe.
pub fn phases_after_probe(probe: &FnProbeResult, window: &str) -> (r: Vec<Phase>)
    ensures
        phase_texts(r@) == probe_phases(*probe, window@),
{
    if probe.supported {
        let interface = match &probe.interface {
            Some(name) => text::concat("Fn 捕获接口: ", name.as_str()),
            None => "Fn 捕获回调已触发".to_owned(),
        };
        let latency = describe_latency(probe);
        let r = vec![
            phase("Priming", with_window(interface.as_str(), window).as_str()),
            phase("PreRoll", with_window(latency.as_str(), window).as_str()),
            phase("Ready", "Fn key captured; session ready"),
        ];
        assert(phase_texts(r@) =~= probe_phases(*probe, window@));
        r
    } else {
        let (why, blame) = match &probe.reason {
            Some(why) => (
                why.clone(),
                if text::contains_str(why.as_str(), "Fn") {
                    why.clone()
                } else {
                    text::concat("Fn 捕获失败：", why.as_str())
                },
            ),
            None => (
                "Fn 捕获失败，已建议录制备用组合".to_owned(),
                "Fn 捕获失败，已建议录制备用组合".to_owned(),
            ),
        };
        let r = vec![
            phase("PreRoll", with_window(why.as_str(), window).as_str()),
            phase("Fallback", with_window(blame.as_str(), window).as_str()),
        ];
        assert(phase_texts(r@) =~= probe_phases(*probe, window@));
        r
    }
}

/// Takes the result of a probe to heart: it is remembered, the window follows
/// it, and the phases that it leads to are returned.
pub fn start_fn_probe<L: Copy>(state: &mut AppState<L>, probe: FnProbeResult) -> (r: Vec<Phase>)
    ensures
        final(state).hotkey == (HotkeyState {
            last_probe: Some(probe),
            binding: old(state).hotkey.binding,
        }),
        final(state).frame_window.mode == window_for(probe),
        text::opt_text(final(state).frame_window.last_reason) == window_reason(probe),
        *final(state) == (AppState {
            hotkey: final(state).hotkey,
            frame_window: final(state).frame_window,
            ..*old(state)
        }),
        phase_texts(r@) == probe_phases(
            probe,
            window_detail(window_for(probe), window_reason(probe)),
        ),
{
    let (mode, reason) = choose_window(&probe);
    let window = describe_window(mode, &reason);
    let phases = phases_after_probe(&probe, window.as_str());
    state.set_frame_window(mode, reason);
    state.hotkey.last_probe = Some(probe);
    phases
}

/// The short window is used exactly when no Fn key was caught or it answered too
/// late, and there is always a reason for it.
pub proof fn law_short_window_has_a_reason(probe: FnProbeResult)
    ensures
        window_for(probe) == FrameWindowSetting::Fallback <==> !probe.supported || is_late(probe),
        window_for(probe) == FrameWindowSetting::Fallback <==> window_reason(probe) is Some,
{
}

/// What the system says when it is asked for a combination.
#[derive(Debug)]
pub enum SystemAnswer {
    /// It cannot be asked.
    NotAsked,
    /// The question failed.
    Failed(String),
    /// This program holds the combination already.
    Registered,
    /// The combination is free.
    Free,
    /// The combination could not be taken, for a reason.
    Refused(String),
}

/// The first of `list` that is `combination`, ASCII case aside.
pub open spec fn first_like(list: Seq<Seq<char>>, combination: Seq<char>) -> Option<Seq<char>>
    decreases list.len(),
{
    if list.len() == 0 {
        None
    } else if text::ascii_lower_text(list[0]) == text::ascii_lower_text(combination) {
        Some(list[0])
    } else {
        first_like(list.skip(1), combination)
    }
}

/// What a combination collides with, given what the system's refusal is in lower
/// case: one that the systems keep for themselves, or itself where it is taken.
/// The system is believed only where the combination is not kept.
pub open spec fn conflict_of(
    combination: Seq<char>,
    answer: SystemAnswer,
    lowered: Seq<char>,
) -> Result<Option<Seq<char>>, Seq<char>> {
    match first_like(hotkey::reserved(), combination) {
        Some(kept) => Ok(Some(kept)),
        None => match answer {
            SystemAnswer::NotAsked => Ok(None),
            SystemAnswer::Free => Ok(None),
            SystemAnswer::Registered => Ok(Some(combination)),
            SystemAnswer::Failed(error) => Err("failed to query shortcut: "@ + error@),
            SystemAnswer::Refused(error) => if text::holds_text(lowered, "already"@) {
                Ok(Some(combination))
            } else {
                Err("无法在系统中注册组合 "@ + combination + ": "@ + error@)
            },
        },
    }
}

/// A refusal in lower case.
pub open spec fn lowered_refusal(answer: SystemAnswer) -> Seq<char> {
    match answer {
        SystemAnswer::Refused(error) => text::lower_text(error@),
        _ => Seq::empty(),
    }
}

/// Whether a result is that of `conflict_of`.
pub open spec fn tells_conflict(
    r: Result<Option<String>, String>,
    conflict: Result<Option<Seq<char>>, Seq<char>>,
) -> bool {
    match conflict {
        Ok(found) => r matches Ok(c) && text::opt_text(c) == found,
        Err(message) => r matches Err(e) && e@ == message,
    }
}

fn reserved_like(combination: &str) -> (r: Option<String>)
    ensures
        text::opt_text(r) == first_like(hotkey::reserved(), combination@),
{
    let list = HotkeyCompatibilityLayer::conflicts();
    let ghost all = hotkey::reserved();
    let mut i: usize = 0;
    assert(all.skip(0) =~= all);
    while i < list.len()
        invariant
            i <= list@.len(),
            all == hotkey::reserved(),
            text::texts(list@) == all,
            first_like(all, combination@) == first_like(all.skip(i as int), combination@),
        decreases list.len() - i,
    {
        assert(text::texts(list@)[i as int] == list@[i as int]@);
        assert(all.skip(i as int)[0] == all[i as int]);
        assert(all.skip(i as int).skip(1) =~= all.skip(i + 1));
        if text::same_ignoring_case(list[i].as_str(), combination) {
            return Some(list[i].clone());
        }
        i += 1;
    }
    None
}

impl HotkeyCompatibilityLayer {
    /// What a combination collides with, given what the system says and its
    /// refusal in lower case.
    pub fn judge_conflict(combination: &str, answer: &SystemAnswer, lowered: &str) -> (r: Result<
        Option<String>,
        String,
    >)
        ensures
            tells_conflict(r, conflict_of(combination@, *answer, lowered@)),
    {
        if let Some(kept) = reserved_like(combination) {
            return Ok(Some(kept));
        }
        match answer {
            SystemAnswer::NotAsked => Ok(None),
            SystemAnswer::Free => Ok(None),
            SystemAnswer::Registered => Ok(Some(combination.to_owned())),
            SystemAnswer::Failed(error) => Err(
                text::concat("failed to query shortcut: ", error.as_str()),
            ),
            SystemAnswer::Refused(error) => if text::contains_str(lowered, "already") {
                Ok(Some(combination.to_owned()))
            } else {
                Err(
                    text::concat4(
                        "无法在系统中注册组合 ",
                        combination,
                        ": ",
                        error.as_str(),
                    ),
                )
            },
        }
    }

    /// What a combination collides with, given what the system says.
    pub fn detect_conflict(combination: &str, answer: &SystemAnswer) -> (r: Result<
        Option<String>,
        String,
    >)
        ensures
            tells_conflict(r, conflict_of(combination@, *answer, lowered_refusal(*answer))),
    {
        let lowered = match answer {
            SystemAnswer::Refused(error) => text::to_lowercase(error.as_str()),
            _ => String::new(),
        };
        proof {
            if !(*answer is Refused) {
                assert(lowered@ =~= Seq::empty());
            }
        }
        Self::judge_conflict(combination, answer, lowered.as_str())
    }
}

/// A combination that the systems keep is always reported, whatever the system
/// says and however it is capitalised.
pub proof fn law_reserved_combinations_are_conflicts(
    i: int,
    combination: Seq<char>,
    answer: SystemAnswer,
    lowered: Seq<char>,
)
    requires
        0 <= i < hotkey::reserved().len(),
        text::ascii_lower_text(combination) == text::ascii_lower_text(hotkey::reserved()[i]),
    ensures
        conflict_of(combination, answer, lowered) matches Ok(Some(kept)) && text::ascii_lower_text(
            kept,
        ) == text::ascii_lower_text(combination),
{
    lemma_first_like(hotkey::reserved(), combination, i);
}

/// The combinations that the systems keep are these and no others: one of them is
/// found in whatever case it is written and whatever the system says, and of any
/// other the system's answer decides.
pub proof fn law_kept_combinations_are_these(
    kept: Seq<char>,
    combination: Seq<char>,
    answer: SystemAnswer,
    lowered: Seq<char>,
)
    ensures
        (kept == "Ctrl+Alt+Delete"@ || kept == "Ctrl+Shift+Esc"@ || kept == "Alt+F4"@ || kept
            == "Alt+Tab"@ || kept == "Cmd+Q"@ || kept == "Cmd+Option+Esc"@ || kept == "Cmd+Space"@
            || kept == "Win+L"@ || kept == "Win+Space"@) && text::ascii_lower_text(combination)
            == text::ascii_lower_text(kept) ==> (conflict_of(combination, answer, lowered) matches Ok(
            Some(found),
        ) && text::ascii_lower_text(found) == text::ascii_lower_text(kept)),
        ({
            let c = text::ascii_lower_text(combination);
            &&& c != text::ascii_lower_text("Ctrl+Alt+Delete"@)
            &&& c != text::ascii_lower_text("Ctrl+Shift+Esc"@)
            &&& c != text::ascii_lower_text("Alt+F4"@)
            &&& c != text::ascii_lower_text("Alt+Tab"@)
            &&& c != text::ascii_lower_text("Cmd+Q"@)
            &&& c != text::ascii_lower_text("Cmd+Option+Esc"@)
            &&& c != text::ascii_lower_text("Cmd+Space"@)
            &&& c != text::ascii_lower_text("Win+L"@)
            &&& c != text::ascii_lower_text("Win+Space"@)
        }) ==> {
            &&& answer is NotAsked ==> conflict_of(combination, answer, lowered)
                == Ok::<Option<Seq<char>>, Seq<char>>(None)
            &&& answer is Free ==> conflict_of(combination, answer, lowered) == Ok::<
                Option<Seq<char>>,
                Seq<char>,
            >(None)
            &&& answer is Registered ==> conflict_of(combination, answer, lowered) == Ok::<
                Option<Seq<char>>,
                Seq<char>,
            >(Some(combination))
            &&& answer is Failed ==> conflict_of(combination, answer, lowered) is Err
            &&& answer is Refused ==> (conflict_of(combination, answer, lowered)
                == Ok::<Option<Seq<char>>, Seq<char>>(Some(combination)) <==> exists|i: int|
                0 <= i && i + 7 <= lowered.len() && #[trigger] lowered.subrange(i, i + 7)
                    == "already"@)
        },
{
    let list = hotkey::reserved();
    if kept == "Ctrl+Alt+Delete"@ && text::ascii_lower_text(combination) == text::ascii_lower_text(kept) {
        assert(list[0] == kept);
        lemma_first_like(list, combination, 0);
    }
    if kept == "Ctrl+Shift+Esc"@ && text::ascii_lower_text(combination) == text::ascii_lower_text(kept) {
        assert(list[1] == kept);
        lemma_first_like(list, combination, 1);
    }
    if kept == "Alt+F4"@ && text::ascii_lower_text(combination) == text::ascii_lower_text(kept) {
        assert(list[2] == kept);
        lemma_first_like(list, combination, 2);
    }
    if kept == "Alt+Tab"@ && text::ascii_lower_text(combination) == text::ascii_lower_text(kept) {
        assert(list[3] == kept);
        lemma_first_like(list, combination, 3);
    }
    if kept == "Cmd+Q"@ && text::ascii_lower_text(combination) == text::ascii_lower_text(kept) {
        assert(list[4] == kept);
        lemma_first_like(list, combination, 4);
    }
    if kept == "Cmd+Option+Esc"@ && text::ascii_lower_text(combination) == text::ascii_lower_text(kept) {
        assert(list[5] == kept);
        lemma_first_like(list, combination, 5);
    }
    if kept == "Cmd+Space"@ && text::ascii_lower_text(combination) == text::ascii_lower_text(kept) {
        assert(list[6] == kept);
        lemma_first_like(list, combination, 6);
    }
    if kept == "Win+L"@ && text::ascii_lower_text(combination) == text::ascii_lower_text(kept) {
        assert(list[7] == kept);
        lemma_first_like(list, combination, 7);
    }
    if kept == "Win+Space"@ && text::ascii_lower_text(combination) == text::ascii_lower_text(kept) {
        assert(list[8] == kept);
        lemma_first_like(list, combination, 8);
    }
    if forall|i: int|
        0 <= i < list.len() ==> text::ascii_lower_text(#[trigger] list[i])
            != text::ascii_lower_text(combination) {
        lemma_nothing_like(list, combination);
    }
    reveal_strlit("already");
    let word = "already"@;
    if text::holds_text(lowered, word) {
        let at = choose|at: int| text::stands_at(lowered, word, at);
        assert(lowered.subrange(at, at + 7) == word);
    }
    if exists|i: int| 0 <= i && i + 7 <= lowered.len() && #[trigger] lowered.subrange(i, i + 7)
        == word {
        let i = choose|i: int|
            0 <= i && i + 7 <= lowered.len() && #[trigger] lowered.subrange(i, i + 7) == word;
        assert(text::stands_at(lowered, word, i));
    }
}

proof fn lemma_nothing_like(list: Seq<Seq<char>>, combination: Seq<char>)
    requires
        forall|i: int|
            0 <= i < list.len() ==> text::ascii_lower_text(#[trigger] list[i])
                != text::ascii_lower_text(combination),
    ensures
        first_like(list, combination) is None,
    decreases list.len(),
{
    if list.len() > 0 {
        let rest = list.skip(1);
        assert forall|i: int| 0 <= i < rest.len() implies text::ascii_lower_text(
            #[trigger] rest[i],
        ) != text::ascii_lower_text(combination) by {
            assert(rest[i] == list[i + 1]);
        }
        lemma_nothing_like(rest, combination);
    }
}

proof fn lemma_first_like(list: Seq<Seq<char>>, combination: Seq<char>, i: int)
    requires
        0 <= i < list.len(),
        text::ascii_lower_text(combination) == text::ascii_lower_text(list[i]),
    ensures
        first_like(list, combination) matches Some(kept) && text::ascii_lower_text(kept)
            == text::ascii_lower_text(combination),
    decreases list.len(),
{
    if text::ascii_lower_text(list[0]) != text::ascii_lower_text(combination) {
        assert(list.skip(1)[i - 1] == list[i]);
        lemma_first_like(list.skip(1), combination, i - 1);
    }
}

/// A combination and what it collides with.
#[derive(Debug)]
pub struct HotkeyValidationResult {
    pub combination: String,
    pub conflict_with: Option<String>,
}

/// Looks at a combination that the user proposes.
pub fn validate_custom_hotkey(combination: String, answer: &SystemAnswer) -> (r: Result<
    HotkeyValidationResult,
    String,
>)
    ensures
        if text::trim(combination@).len() == 0 {
            r matches Err(message) && message@ == "组合不能为空"@
        } else {
            match conflict_of(combination@, *answer, lowered_refusal(*answer)) {
                Ok(found) => r matches Ok(result) && result.combination == combination
                    && text::opt_text(result.conflict_with) == found,
                Err(error) => r matches Err(message) && message@ == error,
            }
        },
{
    if text::is_blank(combination.as_str()) {
        return Err("组合不能为空".to_owned());
    }
    match HotkeyCompatibilityLayer::detect_conflict(combination.as_str(), answer) {
        Ok(conflict_with) => Ok(HotkeyValidationResult { combination, conflict_with }),
        Err(message) => Err(message),
    }
}

/// A captured combination, what it collides with, and why it is needed.
#[derive(Debug)]
pub struct HotkeyCaptureResponse {
    pub combination: String,
    pub conflict_with: Option<String>,
    pub reason: Option<String>,
}

/// Why the last probe failed, if it did and said so.
pub open spec fn last_reason(hotkey: HotkeyState) -> Option<Seq<char>> {
    match hotkey.last_probe {
        Some(probe) => text::opt_text(probe.reason),
        None => None,
    }
}

fn copy_last_reason(hotkey: &HotkeyState) -> (r: Option<String>)
    ensures
        text::opt_text(r) == last_reason(*hotkey),
{
    match &hotkey.last_probe {
        Some(probe) => text::copy_opt(&probe.reason),
        None => None,
    }
}

/// Looks at a combination that was captured, and names the phase it leads to.
pub fn capture_custom_hotkey(
    hotkey: &HotkeyState,
    combination: String,
    answer: &SystemAnswer,
) -> (r: Result<(HotkeyCaptureResponse, Phase), String>)
    ensures
        match conflict_of(combination@, *answer, lowered_refusal(*answer)) {
            Ok(found) => {
                &&& r matches Ok((response, phase))
                &&& response.combination == combination
                &&& text::opt_text(response.conflict_with) == found
                &&& text::opt_text(response.reason) == last_reason(*hotkey)
                &&& phase.name@ == "Fallback"@
                &&& phase.detail@ == "Captured fallback combination: "@ + combination@
            },
            Err(error) => r matches Err(message) && message@ == error,
        },
{
    match HotkeyCompatibilityLayer::detect_conflict(combination.as_str(), answer) {
        Ok(conflict_with) => {
            let detail = text::concat("Captured fallback combination: ", combination.as_str());
            let reason = copy_last_reason(hotkey);
            Ok(
                (
                    HotkeyCaptureResponse { combination, conflict_with, reason },
                    Phase { name: "Fallback".to_owned(), detail },
                ),
            )
        },
        Err(message) => Err(message),
    }
}

/// The hotkey that the user wants.
#[derive(Debug)]
pub struct PersistHotkeyRequest {
    pub combination: String,
    pub source: HotkeySource,
    pub reason: Option<String>,
}

/// Why a hotkey is used. Where the Fn key is not used there is always a reason:
/// the given one, that of the last probe, or that the Fn key was not caught.
pub open spec fn binding_reason(request: PersistHotkeyRequest, hotkey: HotkeyState) -> Option<
    Seq<char>,
> {
    if request.source == HotkeySource::Custom && request.reason is None {
        match last_reason(hotkey) {
            Some(why) => Some(why),
            None => Some("Fn 键未被系统捕获，已切换到备用组合。"@),
        }
    } else {
        text::opt_text(request.reason)
    }
}

/// Why a hotkey is refused.
pub open spec fn refusal(request: PersistHotkeyRequest, answer: SystemAnswer) -> Option<Seq<char>> {
    if text::trim(request.combination@).len() == 0 {
        Some("热键组合不能为空"@)
    } else {
        match conflict_of(request.combination@, answer, lowered_refusal(answer)) {
            Ok(Some(other)) => Some("组合与系统快捷键 "@ + other + " 冲突"@),
            Ok(None) => None,
            Err(error) => Some(error),
        }
    }
}

/// Settles on a hotkey, unless it is blank or collides with another. What is
/// returned is to be stored, shown and told as the phase.
pub fn persist_hotkey_binding<L: Copy>(
    state: &mut AppState<L>,
    request: PersistHotkeyRequest,
    answer: &SystemAnswer,
) -> (r: Result<Phase, String>)
    ensures
        match refusal(request, *answer) {
            Some(why) => *final(state) == *old(state) && (r matches Err(message) && message@
                == why),
            None => {
                &&& r matches Ok(phase)
                &&& phase.name@ == "HotkeyConfigured"@
                &&& phase.detail@ == "Active combination: "@ + request.combination@
                &&& final(state).hotkey.binding.combination == request.combination
                &&& final(state).hotkey.binding.source == request.source
                &&& text::opt_text(final(state).hotkey.binding.reason) == binding_reason(
                    request,
                    old(state).hotkey,
                )
                &&& *final(state) == (AppState {
                    hotkey: HotkeyState {
                        binding: final(state).hotkey.binding,
                        ..old(state).hotkey
                    },
                    ..*old(state)
                })
            },
        },
{
    if text::is_blank(request.combination.as_str()) {
        return Err("热键组合不能为空".to_owned());
    }
    match HotkeyCompatibilityLayer::detect_conflict(request.combination.as_str(), answer) {
        Ok(Some(other)) => {
            return Err(text::concat3("组合与系统快捷键 ", other.as_str(), " 冲突"));
        },
        Ok(None) => {},
        Err(message) => {
            return Err(message);
        },
    }
    let detail = text::concat("Active combination: ", request.combination.as_str());
    let reason = match (request.source, request.reason) {
        (HotkeySource::Custom, None) => match copy_last_reason(&state.hotkey) {
            Some(why) => Some(why),
            None => Some("Fn 键未被系统捕获，已切换到备用组合。".to_owned()),
        },
        (_, reason) => reason,
    };
    state.hotkey.binding = HotkeyBinding {
        combination: request.combination,
        source: request.source,
        reason,
    };
    Ok(Phase { name: "HotkeyConfigured".to_owned(), detail })
}

/// The title that shows the hotkey in the tray.
pub fn tray_title(binding: &HotkeyBinding) -> (r: String)
    ensures
        r@ == "当前热键: "@ + binding.combination@,
{
    text::concat("当前热键: ", binding.combination.as_str())
}

/// A hotkey other than the Fn key is never settled on without a reason.
pub proof fn law_custom_hotkey_has_a_reason(request: PersistHotkeyRequest, hotkey: HotkeyState)
    requires
        request.source == HotkeySource::Custom,
    ensures
        binding_reason(request, hotkey) is Some,
        request.reason is Some ==> binding_reason(request, hotkey) == text::opt_text(request.reason),
{
}

/// The Fn key is waited for in the long window exactly when it was caught and did
/// not answer too late; where nothing is known of that, it counts as in time.
/// Whatever is said of the short window, it says why.
pub proof fn law_window_follows_the_probe(probe: FnProbeResult)
    ensures
        window_for(probe) == FrameWindowSetting::Default <==> probe.supported && probe.within_sla
            != Some(false),
        window_reason(probe) is None <==> probe.supported && probe.within_sla != Some(false),
        !probe.supported ==> window_reason(probe) == Some(
            "Fn 捕获失败，保持 100ms 帧窗口"@,
        ),
        probe.supported && probe.within_sla == Some(false) ==> (probe.latency_ms matches Some(ms)
            ==> window_reason(probe) == Some(
            "Fn 延迟 "@ + text::decimal_text(ms as nat) + "ms 超出 400ms SLA"@,
        )),
{
}

/// What follows a probe ends with a session that is ready where the Fn key was
/// caught, and with the fallback where it was not; the window is told each time
/// before that.
pub proof fn law_probe_leads_to_ready_or_fallback(probe: FnProbeResult, window: Seq<char>)
    ensures
        ({
            let phases = probe_phases(probe, window);
            &&& phases.len() >= 2
            &&& phases.last().0 == if probe.supported {
                "Ready"@
            } else {
                "Fallback"@
            }
            &&& probe.supported ==> phases.len() == 3 && phases[0].0 == "Priming"@ && phases[1].0
                == "PreRoll"@
            &&& !probe.supported ==> phases.len() == 2 && phases[0].0 == "PreRoll"@
            &&& forall|i: int|
                0 <= i < phases.len() && (i < phases.len() - 1 || !probe.supported)
                    ==> text::holds_text((#[trigger] phases[i]).1, window)
        }),
{
    let phases = probe_phases(probe, window);
    assert forall|i: int|
        0 <= i < phases.len() && (i < phases.len() - 1 || !probe.supported) implies text::holds_text(
        (#[trigger] phases[i]).1,
        window,
    ) by {
        let detail = phases[i].1;
        let at = detail.len() - window.len();
        assert(detail.subrange(at, at + window.len()) =~= window);
        assert(text::stands_at(detail, window, at));
    }
}

/// A hotkey is settled on exactly when it says something and collides with
/// nothing, as far as the system could be asked.
pub proof fn law_taken_combinations_are_refused(
    request: PersistHotkeyRequest,
    answer: SystemAnswer,
)
    ensures
        ({
            let blank = forall|i: int|
                0 <= i < request.combination@.len() ==> text::is_white(
                    #[trigger] request.combination@[i],
                );
            let conflict = conflict_of(request.combination@, answer, lowered_refusal(answer));
            &&& refusal(request, answer) is None <==> !blank && conflict == Ok::<
                Option<Seq<char>>,
                Seq<char>,
            >(None)
            &&& blank ==> refusal(request, answer) == Some("热键组合不能为空"@)
            &&& !blank ==> (conflict matches Ok(Some(other)) ==> refusal(request, answer) == Some(
                "组合与系统快捷键 "@ + other + " 冲突"@,
            ))
            &&& !blank ==> (conflict matches Err(error) ==> refusal(request, answer) == Some(error))
        }),
{
    text::lemma_trim_empty(request.combination@);
}

/// The reason for a hotkey is the given one; where none is given for one that
/// takes the place of the Fn key, that of the last probe, and where that gave
/// none, that the Fn key was not caught.
pub proof fn law_reason_comes_from_the_probe(request: PersistHotkeyRequest, hotkey: HotkeyState)
    ensures
        request.reason is Some ==> binding_reason(request, hotkey) == text::opt_text(request.reason),
        request.reason is None && request.source == HotkeySource::Fn ==> binding_reason(
            request,
            hotkey,
        ) is None,
        request.reason is None && request.source == HotkeySource::Custom ==> {
            &&& last_reason(hotkey) is Some ==> binding_reason(request, hotkey) == last_reason(
                hotkey,
            )
            &&& last_reason(hotkey) is None ==> binding_reason(request, hotkey) == Some(
                "Fn 键未被系统捕获，已切换到备用组合。"@,
            )
        },
        last_reason(hotkey) is Some <==> (hotkey.last_probe matches Some(p) && p.reason is Some),
{
}

} // verus!
