//! What the user interface asks for, apart from hotkeys and calibration.
use vstd::prelude::*;

use crate::desktop::binding::{self, Phase};
use crate::desktop::onboarding::{self, TutorialStatus};
use crate::desktop::permissions::PermissionCheck;
use crate::desktop::state::{self, AppState};
use crate::text;

verus! {

/// The permissions that are asked for.
#[derive(Debug, Clone, Copy, PartialEq, Eq, Structural)]
pub enum Permission {
    Microphone,
    Accessibility,
}

/// The name under which a permission is noted.
pub open spec fn permission_key(permission: Permission) -> Seq<char> {
    match permission {
        Permission::Microphone => "microphone"@,
        Permission::Accessibility => "accessibility"@,
    }
}

/// A permission as it is told to the user interface.
#[derive(Debug)]
pub struct PermissionResponse {
    pub granted: bool,
    pub manual_hint: Option<String>,
    pub platform: String,
    pub detail: Option<String>,
}

/// The phase in which a permission is asked for.
pub fn permission_prompt(permission: Permission) -> (r: Phase)
    ensures
        r.name@ == "PermissionPrompt"@,
        r.detail@ == match permission {
            Permission::Microphone => "Requesting microphone access"@,
            Permission::Accessibility => "Requesting accessibility access"@,
        },
{
    match permission {
        Permission::Microphone => binding::phase(
            "PermissionPrompt",
            "Requesting microphone access",
        ),
        Permission::Accessibility => binding::phase(
            "PermissionPrompt",
            "Requesting accessibility access",
        ),
    }
}

/// What is said once the answer is there.
pub open spec fn answer_detail(permission: Permission, check: PermissionCheck) -> Seq<char> {
    if check.granted {
        match permission {
            Permission::Microphone => "Microphone permission granted"@,
            Permission::Accessibility => "Accessibility permission granted"@,
        }
    } else {
        match check.manual_hint {
            Some(hint) => hint@,
            None => match permission {
                Permission::Microphone => "需要用户手动授予麦克风权限"@,
                Permission::Accessibility => "需要辅助功能权限以捕获 Fn 键"@,
            },
        }
    }
}

/// The phase once the answer is there.
pub fn permission_answered(permission: Permission, check: &PermissionCheck) -> (r: Phase)
    ensures
        r.name@ == if check.granted {
            "PermissionGranted"@
        } else {
            "PermissionRequired"@
        },
        r.detail@ == answer_detail(permission, *check),
{
    if check.granted {
        let detail = match permission {
            Permission::Microphone => "Microphone permission granted",
            Permission::Accessibility => "Accessibility permission granted",
        };
        return binding::phase("PermissionGranted", detail);
    }
    match &check.manual_hint {
        Some(hint) => binding::phase("PermissionRequired", hint.as_str()),
        None => match permission {
            Permission::Microphone => binding::phase(
                "PermissionRequired",
                "需要用户手动授予麦克风权限",
            ),
            Permission::Accessibility => binding::phase(
                "PermissionRequired",
                "需要辅助功能权限以捕获 Fn 键",
            ),
        },
    }
}

/// Notes what the system said of a permission, and passes it on.
pub fn note_permission<L: Copy>(
    app: &mut AppState<L>,
    permission: Permission,
    check: PermissionCheck,
    platform: String,
) -> (r: PermissionResponse)
    requires
        state::state_ok(*old(app)),
    ensures
        state::state_ok(*final(app)),
        r.granted == check.granted,
        r.manual_hint == check.manual_hint,
        r.detail == check.detail,
        r.platform == platform,
        state::with_permission(
            old(app).onboarding@,
            permission_key(permission),
            check.granted,
        ) matches Some(preferences) && state::prefers(*final(app), *old(app), preferences),
{
    proof {
        state::law_permissions_are_separate(app.onboarding@, check.granted);
    }
    let key = match permission {
        Permission::Microphone => "microphone",
        Permission::Accessibility => "accessibility",
    };
    let _ = app.update_permission_status(key, check.granted);
    PermissionResponse {
        granted: check.granted,
        manual_hint: check.manual_hint,
        platform,
        detail: check.detail,
    }
}

/// The permissions that were seen granted.
#[derive(Debug, Clone, Copy)]
pub struct PermissionStatusSummary {
    pub microphone: bool,
    pub accessibility: bool,
}

/// The permissions that were seen granted.
pub fn permission_status<L: Copy>(app: &AppState<L>) -> (r: PermissionStatusSummary)
    ensures
        r.microphone == app.onboarding@.permissions.microphone,
        r.accessibility == app.onboarding@.permissions.accessibility,
{
    let status = app.permission_status();
    PermissionStatusSummary { microphone: status.microphone, accessibility: status.accessibility }
}

/// The phase once the devices are listed.
pub fn devices_ready(count: usize) -> (r: Phase)
    ensures
        r.name@ == "DeviceReady"@,
        r.detail@ == "Discovered "@ + text::decimal_text(count as nat) + " devices"@,
{
    let detail = text::concat3("Discovered ", text::decimal(count as u64).as_str(), " devices");
    Phase { name: "DeviceReady".to_owned(), detail }
}

/// The engine that the user chose, and what is advised.
#[derive(Debug)]
pub struct EnginePreference {
    pub choice: Option<String>,
    pub recommended: String,
    pub privacy_notice: String,
}

/// Whether this is what is told of the engine.
pub open spec fn tells_engine(r: EnginePreference, choice: Option<Seq<char>>) -> bool {
    &&& text::opt_text(r.choice) == choice
    &&& r.recommended@ == "hybrid"@
    &&& r.privacy_notice@
        == "智能混合模式会根据网络状况在本地与云端间切换，云端转写仅在获得租户授权时启用。"@
}

/// The engine that the user chose, and what is advised.
pub fn get_engine_preference<L: Copy>(app: &AppState<L>) -> (r: EnginePreference)
    ensures
        tells_engine(r, app.onboarding@.engine_choice),
{
    EnginePreference {
        choice: app.engine_choice(),
        recommended: "hybrid".to_owned(),
        privacy_notice:
            "智能混合模式会根据网络状况在本地与云端间切换，云端转写仅在获得租户授权时启用。".to_owned(),
    }
}

/// Notes the engine that the user chose.
pub fn persist_engine_preference<L: Copy>(app: &mut AppState<L>, choice: &str) -> (r:
    EnginePreference)
    requires
        state::state_ok(*old(app)),
    ensures
        state::state_ok(*final(app)),
        state::prefers(
            *final(app),
            *old(app),
            (onboarding::Preferences { engine_choice: Some(choice@), ..old(app).onboarding@ }),
        ),
        tells_engine(r, Some(choice@)),
{
    app.update_engine_choice(choice);
    get_engine_preference(app)
}

/// Notes that the tutorial was finished; this is the phase then.
pub fn complete_session_bootstrap<L: Copy>(app: &mut AppState<L>) -> (r: Phase)
    requires
        state::state_ok(*old(app)),
    ensures
        state::state_ok(*final(app)),
        state::prefers(
            *final(app),
            *old(app),
            state::with_tutorial(old(app).onboarding@, TutorialStatus::Completed),
        ),
        r.name@ == "Completed"@,
        r.detail@ == "Onboarding tutorial finished (completed)"@,
{
    app.mark_tutorial_complete();
    binding::phase("Completed", "Onboarding tutorial finished (completed)")
}

/// Notes that the tutorial was skipped; this is the phase then.
pub fn skip_tutorial<L: Copy>(app: &mut AppState<L>) -> (r: Phase)
    requires
        state::state_ok(*old(app)),
    ensures
        state::state_ok(*final(app)),
        state::prefers(
            *final(app),
            *old(app),
            state::with_tutorial(old(app).onboarding@, TutorialStatus::Skipped),
        ),
        r.name@ == "TutorialSkipped"@,
        r.detail@ == "Tutorial deferred for later review"@,
{
    app.mark_tutorial_skipped();
    binding::phase("TutorialSkipped", "Tutorial deferred for later review")
}

/// Whether and how the tutorial ended.
#[derive(Debug)]
pub struct TutorialCompletionSummary {
    pub finished: bool,
    pub status: Option<String>,
}

/// Whether and how the tutorial ended.
pub fn tutorial_completion<L: Copy>(app: &AppState<L>) -> (r: TutorialCompletionSummary)
    ensures
        r.finished == onboarding::tutorial_is_over(app.onboarding@),
        match app.onboarding@.tutorial_status {
            Some(TutorialStatus::Completed) => r.status matches Some(s) && s@ == "completed"@,
            Some(TutorialStatus::Skipped) => r.status matches Some(s) && s@ == "skipped"@,
            None => r.status is None,
        },
{
    TutorialCompletionSummary {
        finished: app.tutorial_completed(),
        status: match app.tutorial_status() {
            Some(status) => Some(status.as_str().to_owned()),
            None => None,
        },
    }
}

/// Each permission has a key of its own, and what is told of it says that it was
/// granted, or else what the user has to do: as the system puts it, or in words
/// that name the permission.
pub proof fn law_permissions_are_told(check: PermissionCheck)
    ensures
        permission_key(Permission::Microphone) == "microphone"@,
        permission_key(Permission::Accessibility) == "accessibility"@,
        check.granted ==> answer_detail(Permission::Microphone, check)
            == "Microphone permission granted"@,
        check.granted ==> answer_detail(Permission::Accessibility, check)
            == "Accessibility permission granted"@,
        !check.granted ==> (check.manual_hint matches Some(hint) ==> answer_detail(
            Permission::Microphone,
            check,
        ) == hint@ && answer_detail(Permission::Accessibility, check) == hint@),
        !check.granted && check.manual_hint is None ==> answer_detail(Permission::Microphone, check)
            == "需要用户手动授予麦克风权限"@ && answer_detail(Permission::Accessibility, check)
            == "需要辅助功能权限以捕获 Fn 键"@,
{
}

} // verus!
