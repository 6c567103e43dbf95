//! What the system says of the microphone and accessibility permissions, and
//! what is told to the user about them.
use vstd::prelude::*;

use crate::text;

verus! {

/// The systems that differ in how permissions are asked for.
#[derive(Debug, Clone, Copy, PartialEq, Eq, Structural)]
pub enum Platform {
    MacOs,
    Windows,
    Other,
}

/// What is known of a permission.
#[derive(Debug, Clone, PartialEq, Eq)]
pub struct PermissionCheck {
    pub granted: bool,
    pub manual_hint: Option<String>,
    pub detail: Option<String>,
}

/// Whether a check says this, in these words.
pub open spec fn says(
    check: PermissionCheck,
    granted: bool,
    manual_hint: Option<Seq<char>>,
    detail: Seq<char>,
) -> bool {
    &&& check.granted == granted
    &&& text::opt_text(check.manual_hint) == manual_hint
    &&& check.detail matches Some(d) && d@ == detail
}

fn granted(detail: &str) -> (r: PermissionCheck)
    ensures
        says(r, true, None, detail@),
{
    PermissionCheck { granted: true, manual_hint: None, detail: Some(detail.to_owned()) }
}

fn refused(manual_hint: &str, detail: &str) -> (r: PermissionCheck)
    ensures
        says(r, false, Some(manual_hint@), detail@),
{
    PermissionCheck {
        granted: false,
        manual_hint: Some(manual_hint.to_owned()),
        detail: Some(detail.to_owned()),
    }
}

/// How the registration as a Windows assistive technology went.
#[derive(Debug, Clone, PartialEq, Eq)]
pub struct WindowsAccessibilityFlow {
    pub initial_present: bool,
    pub post_present: bool,
    pub script_invoked: bool,
    pub script_error: Option<String>,
}

/// Where the user registers by hand on Windows.
pub open spec fn windows_hint() -> Seq<char> {
    "请在 设置 → 无障碍 → 键盘 中启用 Flowwisper，并在提示失败时点击“修复助手”重新注册。"@
}

/// What is said of a registration: it is granted exactly when the program was
/// found registered, before or after the script.
pub open spec fn answers_flow(r: PermissionCheck, flow: WindowsAccessibilityFlow) -> bool {
    if flow.initial_present || flow.post_present {
        says(
            r,
            true,
            None,
            "已在 Windows 辅助技术白名单中注册 Flowwisper，可捕获 Fn 按键。"@,
        )
    } else if !flow.script_invoked {
        says(
            r,
            false,
            Some(windows_hint()),
            "尚未在 Windows 辅助技术白名单中检测到 Flowwisper。"@,
        )
    } else {
        says(
            r,
            false,
            Some(windows_hint()),
            match flow.script_error {
                Some(error) => error@,
                None => "尝试注册辅助功能后仍未检测到 Flowwisper，请检查系统设置。"@,
            },
        )
    }
}

/// What is told of a registration as a Windows assistive technology.
pub fn compose_windows_accessibility_response(flow: WindowsAccessibilityFlow) -> (r:
    PermissionCheck)
    ensures
        answers_flow(r, flow),
{
    if flow.initial_present || flow.post_present {
        return granted(
            "已在 Windows 辅助技术白名单中注册 Flowwisper，可捕获 Fn 按键。",
        );
    }
    let hint =
        "请在 设置 → 无障碍 → 键盘 中启用 Flowwisper，并在提示失败时点击“修复助手”重新注册。";
    if flow.script_invoked {
        return match flow.script_error {
            Some(error) => refused(hint, error.as_str()),
            None => refused(
                hint,
                "尝试注册辅助功能后仍未检测到 Flowwisper，请检查系统设置。",
            ),
        };
    }
    refused(hint, "尚未在 Windows 辅助技术白名单中检测到 Flowwisper。")
}

/// What comes after a look into the Windows registry.
#[derive(Debug)]
pub enum RegistrationStep {
    /// The answer is known.
    Answer(PermissionCheck),
    /// The registration script has to run; its end is judged by
    /// `after_registration`.
    Register,
}

/// Whether to register, given what the registry holds: only where the user is
/// being asked and the program is missing.
pub fn before_registration(initial_present: bool, prompt: bool) -> (r: RegistrationStep)
    ensures
        r is Register <==> !initial_present && prompt,
        r matches RegistrationStep::Answer(check) ==> answers_flow(
            check,
            (WindowsAccessibilityFlow {
                initial_present,
                post_present: initial_present,
                script_invoked: false,
                script_error: None,
            }),
        ),
{
    if !initial_present && prompt {
        return RegistrationStep::Register;
    }
    RegistrationStep::Answer(
        compose_windows_accessibility_response(
            WindowsAccessibilityFlow {
                initial_present,
                post_present: initial_present,
                script_invoked: false,
                script_error: None,
            },
        ),
    )
}

/// The answer after the registration script: whether the program is registered
/// now, or why the script failed.
pub fn after_registration(outcome: Result<bool, String>) -> (r: PermissionCheck)
    ensures
        answers_flow(
            r,
            (WindowsAccessibilityFlow {
                initial_present: false,
                post_present: outcome == Ok::<bool, String>(true),
                script_invoked: true,
                script_error: match outcome {
                    Ok(_) => None,
                    Err(error) => Some(error),
                },
            }),
        ),
{
    let (post_present, script_error) = match outcome {
        Ok(present) => (present, None),
        Err(error) => (false, Some(error)),
    };
    compose_windows_accessibility_response(
        WindowsAccessibilityFlow {
            initial_present: false,
            post_present,
            script_invoked: true,
            script_error,
        },
    )
}

/// Whether the registry key is there, given the status of opening it.
pub fn is_registered(status: u32) -> (r: Result<bool, String>)
    ensures
        match r {
            Ok(present) => (status == 0 || status == 2) && present == (status == 0),
            Err(message) => status != 0 && status != 2 && message@
                == "无法读取辅助功能注册表: 错误码 "@ + text::decimal_text(status as nat),
        },
{
    if status == 0 {
        Ok(true)
    } else if status == 2 {
        Ok(false)
    } else {
        Err(
            text::concat(
                "无法读取辅助功能注册表: 错误码 ",
                text::decimal(status as u64).as_str(),
            ),
        )
    }
}

/// The script that registers the program at `exe` as an assistive technology.
pub open spec fn script_text(exe: Seq<char>) -> Seq<char> {
    SCRIPT_HEAD@ + exe + SCRIPT_TAIL@
}

/// The script, up to the path of the program.
pub const SCRIPT_HEAD: &'static str =
    "
$base = 'HKCU:\\\\Software\\\\Microsoft\\\\Windows NT\\\\CurrentVersion\\\\Accessibility\\\\ATs'
$path = Join-Path $base 'Flowwisper'
if (-not (Test-Path $path)) {
  New-Item -Path $path -Force | Out-Null
}
New-ItemProperty -Path $path -Name 'Description' -Value 'Flowwisper Accessibility Bridge' -Force | Out-Null
New-ItemProperty -Path $path -Name 'ATExe' -Value \"";

/// The script, behind the path of the program.
pub const SCRIPT_TAIL: &'static str =
    "\" -Force | Out-Null
New-ItemProperty -Path $path -Name 'ATFriendlyName' -Value 'Flowwisper' -Force | Out-Null
";

/// The script that registers the program at `exe` as an assistive technology.
pub fn registration_script(exe: &str) -> (r: String)
    ensures
        r@ == script_text(exe@),
{
    text::concat3(SCRIPT_HEAD, exe, SCRIPT_TAIL)
}

/// How the exit code of the script is written in its error.
pub open spec fn exit_code_text(code: Option<i32>) -> Seq<char> {
    match code {
        Some(n) => "Some("@ + text::signed_text(n as int) + ")"@,
        None => "None"@,
    }
}

/// What the end of the registration script means.
pub fn script_outcome(success: bool, code: Option<i32>) -> (r: Result<(), String>)
    ensures
        r is Ok <==> success,
        r matches Err(message) ==> message@ == "PowerShell 注册脚本执行失败，退出码 "@
            + exit_code_text(code),
{
    if success {
        return Ok(());
    }
    let shown = match code {
        Some(n) => text::concat3("Some(", text::signed_decimal(n).as_str(), ")"),
        None => "None".to_owned(),
    };
    Err(text::concat("PowerShell 注册脚本执行失败，退出码 ", shown.as_str()))
}

/// The answer of macOS to whether the program is trusted with accessibility.
pub fn macos_accessibility(trusted: bool) -> (r: PermissionCheck)
    ensures
        trusted ==> says(r, true, None, "已获得辅助功能权限，可捕获 Fn 键事件"@),
        !trusted ==> says(
            r,
            false,
            Some("请前往 系统设置 → 隐私与安全 → 辅助功能，启用 Flowwisper。"@),
            "macOS 尚未授予辅助功能权限"@,
        ),
{
    if trusted {
        granted("已获得辅助功能权限，可捕获 Fn 键事件")
    } else {
        refused(
            "请前往 系统设置 → 隐私与安全 → 辅助功能，启用 Flowwisper。",
            "macOS 尚未授予辅助功能权限",
        )
    }
}

/// The user's answer to macOS, or nothing if it did not come in time.
pub fn macos_microphone(answer: Option<bool>) -> (r: Result<PermissionCheck, String>)
    ensures
        match answer {
            Some(true) => r matches Ok(check) && says(
                check,
                true,
                None,
                "已通过 AVAudioSession 请求麦克风权限"@,
            ),
            Some(false) => r matches Ok(check) && says(
                check,
                false,
                Some("请前往 系统设置 → 隐私与安全 → 麦克风，手动启用 Flowwisper。"@),
                "用户拒绝了麦克风权限"@,
            ),
            None => r matches Err(message) && message@
                == "未能在 5 秒内获取麦克风权限结果"@,
        },
{
    match answer {
        Some(true) => Ok(granted("已通过 AVAudioSession 请求麦克风权限")),
        Some(false) => Ok(
            refused(
                "请前往 系统设置 → 隐私与安全 → 麦克风，手动启用 Flowwisper。",
                "用户拒绝了麦克风权限",
            ),
        ),
        None => Err("未能在 5 秒内获取麦克风权限结果".to_owned()),
    }
}

/// What Windows says when a capture session is opened, by the error it gave.
pub fn windows_microphone(session: Result<(), String>) -> (r: Result<PermissionCheck, String>)
    ensures
        match session {
            Ok(_) => r matches Ok(check) && says(
                check,
                true,
                None,
                "成功初始化 MediaCapture 音频会话"@,
            ),
            Err(error) => r matches Err(message) && message@ == "请求麦克风权限失败: "@
                + error@
                + ". 请在 设置 → 隐私与安全 → 麦克风 中开启 Flowwisper。"@,
        },
{
    match session {
        Ok(_) => Ok(granted("成功初始化 MediaCapture 音频会话")),
        Err(error) => Err(
            text::concat3(
                "请求麦克风权限失败: ",
                error.as_str(),
                ". 请在 设置 → 隐私与安全 → 麦克风 中开启 Flowwisper。",
            ),
        ),
    }
}

/// The answer on systems that need no microphone permission.
pub fn request_microphone_permission() -> (r: Result<PermissionCheck, String>)
    ensures
        r matches Ok(check) && says(check, true, None, "Linux 不需要额外的麦克风授权"@),
{
    Ok(granted("Linux 不需要额外的麦克风授权"))
}

/// The answer on systems that need no accessibility permission, whether or not
/// the user may be asked.
pub fn ensure_accessibility_permission(_prompt: bool) -> (r: Result<PermissionCheck, String>)
    ensures
        r matches Ok(check) && says(check, true, None, "当前平台无需辅助功能权限"@),
{
    Ok(granted("当前平台无需辅助功能权限"))
}

/// Asks for the accessibility permission on systems that need none.
pub fn request_accessibility_permission() -> (r: Result<PermissionCheck, String>)
    ensures
        r matches Ok(check) && says(check, true, None, "当前平台无需辅助功能权限"@),
{
    ensure_accessibility_permission(true)
}

/// Looks at the accessibility permission on systems that need none.
pub fn check_accessibility_permission() -> (r: Result<PermissionCheck, String>)
    ensures
        r matches Ok(check) && says(check, true, None, "当前平台无需辅助功能权限"@),
{
    ensure_accessibility_permission(false)
}

/// A program to run, with its arguments.
#[derive(Debug)]
pub struct SettingsCommand {
    pub program: String,
    pub arguments: Vec<String>,
}

/// Whether a command is this one.
pub open spec fn runs(command: SettingsCommand, program: Seq<char>, arguments: Seq<Seq<char>>) -> bool {
    command.program@ == program && text::texts(command.arguments@) == arguments
}

fn open_on_macos(address: &str) -> (r: SettingsCommand)
    ensures
        runs(r, "open"@, seq![address@]),
{
    let command = SettingsCommand { program: "open".to_owned(), arguments: vec![address.to_owned()] };
    assert(text::texts(command.arguments@) =~= seq![address@]);
    command
}

fn open_on_windows(address: &str) -> (r: SettingsCommand)
    ensures
        runs(r, "cmd"@, seq!["/C"@, "start"@, address@]),
{
    let command = SettingsCommand {
        program: "cmd".to_owned(),
        arguments: vec!["/C".to_owned(), "start".to_owned(), address.to_owned()],
    };
    assert(text::texts(command.arguments@) =~= seq!["/C"@, "start"@, address@]);
    command
}

/// The command that opens the system's microphone settings.
pub fn open_microphone_settings(platform: Platform) -> (r: Result<SettingsCommand, String>)
    ensures
        match platform {
            Platform::MacOs => r matches Ok(command) && runs(
                command,
                "open"@,
                seq![
                    "x-apple.systempreferences:com.apple.preference.security?Privacy_Microphone"@,
                ],
            ),
            Platform::Windows => r matches Ok(command) && runs(
                command,
                "cmd"@,
                seq!["/C"@, "start"@, "ms-settings:privacy-microphone"@],
            ),
            Platform::Other => r matches Err(message) && message@
                == "当前平台无需额外的麦克风设置"@,
        },
{
    match platform {
        Platform::MacOs => Ok(
            open_on_macos(
                "x-apple.systempreferences:com.apple.preference.security?Privacy_Microphone",
            ),
        ),
        Platform::Windows => Ok(open_on_windows("ms-settings:privacy-microphone")),
        Platform::Other => Err("当前平台无需额外的麦克风设置".to_owned()),
    }
}

/// The command that opens the system's accessibility settings.
pub fn open_accessibility_settings(platform: Platform) -> (r: Result<SettingsCommand, String>)
    ensures
        match platform {
            Platform::MacOs => r matches Ok(command) && runs(
                command,
                "open"@,
                seq![
                    "x-apple.systempreferences:com.apple.preference.security?Privacy_Accessibility"@,
                ],
            ),
            Platform::Windows => r matches Ok(command) && runs(
                command,
                "cmd"@,
                seq!["/C"@, "start"@, "ms-settings:easeofaccess-keyboard"@],
            ),
            Platform::Other => r matches Err(message) && message@ == "当前平台无需辅助功能权限"@,
        },
{
    match platform {
        Platform::MacOs => Ok(
            open_on_macos(
                "x-apple.systempreferences:com.apple.preference.security?Privacy_Accessibility",
            ),
        ),
        Platform::Windows => Ok(open_on_windows("ms-settings:easeofaccess-keyboard")),
        Platform::Other => Err("当前平台无需辅助功能权限".to_owned()),
    }
}

/// However a registration goes, the permission is granted exactly when the
/// program is found registered in the end, and a refusal always tells the user
/// where to register by hand.
pub proof fn law_registration_decides(check: PermissionCheck, flow: WindowsAccessibilityFlow)
    requires
        answers_flow(check, flow),
    ensures
        check.granted <==> flow.initial_present || flow.post_present,
        check.granted <==> check.manual_hint is None,
        check.detail is Some,
{
}

/// What is said of a registration tells whether it is missing because it was not
/// tried, because trying failed, or although trying worked.
pub proof fn law_missing_registration_is_explained(
    check: PermissionCheck,
    flow: WindowsAccessibilityFlow,
)
    requires
        answers_flow(check, flow),
        !flow.initial_present,
        !flow.post_present,
    ensures
        text::opt_text(check.manual_hint) == Some(
            "请在 设置 → 无障碍 → 键盘 中启用 Flowwisper，并在提示失败时点击“修复助手”重新注册。"@,
        ),
        !flow.script_invoked ==> text::opt_text(check.detail) == Some(
            "尚未在 Windows 辅助技术白名单中检测到 Flowwisper。"@,
        ),
        flow.script_invoked && flow.script_error is Some ==> text::opt_text(check.detail)
            == text::opt_text(flow.script_error),
        flow.script_invoked && flow.script_error is None ==> text::opt_text(check.detail) == Some(
            "尝试注册辅助功能后仍未检测到 Flowwisper，请检查系统设置。"@,
        ),
{
}

} // verus!
