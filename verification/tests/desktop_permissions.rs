use flowwisper::desktop::permissions::{
    after_registration, before_registration, check_accessibility_permission,
    compose_windows_accessibility_response, is_registered, macos_accessibility, macos_microphone,
    open_accessibility_settings, open_microphone_settings, registration_script,
    request_accessibility_permission, request_microphone_permission, script_outcome,
    windows_microphone, PermissionCheck, Platform, RegistrationStep, WindowsAccessibilityFlow,
};

fn manual_hint(check: &PermissionCheck) -> &str {
    check.manual_hint.as_deref().unwrap_or("提示缺失")
}

#[test]
fn windows_accessibility_reports_granted_when_registered() {
    let result = compose_windows_accessibility_response(WindowsAccessibilityFlow {
        initial_present: true,
        post_present: true,
        script_invoked: false,
        script_error: None,
    });

    assert!(
        result.granted,
        "expected granted when registry already present"
    );
    assert!(
        result
            .detail
            .as_deref()
            .unwrap_or_default()
            .contains("白名单"),
        "detail should mention whitelist registration"
    );
    assert!(result.manual_hint.is_none());
}

#[test]
fn windows_accessibility_requires_registration_when_missing() {
    let result = compose_windows_accessibility_response(WindowsAccessibilityFlow {
        initial_present: false,
        post_present: false,
        script_invoked: false,
        script_error: None,
    });

    assert!(
        !result.granted,
        "permission should be denied when not registered"
    );
    assert!(
        manual_hint(&result).contains("无障碍"),
        "manual hint should direct users to accessibility settings"
    );
    assert!(
        result
            .detail
            .as_deref()
            .unwrap_or_default()
            .contains("尚未在 Windows 辅助技术白名单"),
        "detail should highlight missing registration"
    );
}

#[test]
fn windows_accessibility_surfaces_script_errors() {
    let message = "PowerShell 注册脚本执行失败".to_string();
    let result = compose_windows_accessibility_response(WindowsAccessibilityFlow {
        initial_present: false,
        post_present: false,
        script_invoked: true,
        script_error: Some(message.clone()),
    });

    assert!(
        manual_hint(&result).contains("修复助手"),
        "manual hint should nudge users toward recovery actions"
    );
    assert_eq!(result.detail.as_deref(), Some(message.as_str()));
    assert!(!result.granted);
}

#[test]
fn registration_runs_only_where_it_is_needed() {
    assert!(matches!(before_registration(false, true), RegistrationStep::Register));
    match before_registration(true, true) {
        RegistrationStep::Answer(check) => assert!(check.granted),
        RegistrationStep::Register => panic!("already registered"),
    }
    match before_registration(false, false) {
        RegistrationStep::Answer(check) => assert!(!check.granted),
        RegistrationStep::Register => panic!("nobody was asked"),
    }
}

#[test]
fn the_end_of_a_registration_is_judged() {
    assert!(after_registration(Ok(true)).granted);
    let silent = after_registration(Ok(false));
    assert!(!silent.granted);
    assert_eq!(
        silent.detail.as_deref(),
        Some("尝试注册辅助功能后仍未检测到 Flowwisper，请检查系统设置。")
    );
    let failed = after_registration(Err("退出码 1".to_string()));
    assert!(!failed.granted);
    assert_eq!(failed.detail.as_deref(), Some("退出码 1"));
}

#[test]
fn registry_states_are_read() {
    assert_eq!(is_registered(0), Ok(true));
    assert_eq!(is_registered(2), Ok(false));
    assert_eq!(
        is_registered(5),
        Err("无法读取辅助功能注册表: 错误码 5".to_string())
    );
}

#[test]
fn script_exit_codes_are_shown() {
    assert_eq!(script_outcome(true, Some(0)), Ok(()));
    assert_eq!(
        script_outcome(false, Some(-1)),
        Err("PowerShell 注册脚本执行失败，退出码 Some(-1)".to_string())
    );
    assert_eq!(
        script_outcome(false, None),
        Err("PowerShell 注册脚本执行失败，退出码 None".to_string())
    );
}

#[test]
fn the_script_names_the_program() {
    let script = registration_script("C:\\app.exe");
    assert!(script.contains("-Name 'ATExe' -Value \"C:\\app.exe\" -Force"));
    assert!(script.starts_with("\n$base = 'HKCU:\\\\Software\\\\Microsoft"));
    assert!(script.contains("if (-not (Test-Path $path)) {\n"));
    assert!(script.ends_with("-Value 'Flowwisper' -Force | Out-Null\n"));
}

#[test]
fn macos_answers_are_passed_on() {
    assert!(macos_accessibility(true).granted);
    assert!(!macos_accessibility(false).granted);
    assert!(macos_microphone(Some(true)).expect("answered").granted);
    assert!(!macos_microphone(Some(false)).expect("answered").granted);
    assert_eq!(
        macos_microphone(None).err(),
        Some("未能在 5 秒内获取麦克风权限结果".to_string())
    );
}

#[test]
fn windows_microphone_errors_tell_where_to_look() {
    assert!(windows_microphone(Ok(())).expect("granted").granted);
    assert_eq!(
        windows_microphone(Err("E_ACCESSDENIED".to_string())).err(),
        Some(
            "请求麦克风权限失败: E_ACCESSDENIED. 请在 设置 → 隐私与安全 → 麦克风 中开启 Flowwisper。"
                .to_string()
        )
    );
}

#[test]
fn other_systems_need_no_permission() {
    let microphone = request_microphone_permission().expect("answered");
    assert!(microphone.granted);
    assert_eq!(
        microphone.detail.as_deref(),
        Some("Linux 不需要额外的麦克风授权")
    );
    assert!(request_accessibility_permission().expect("answered").granted);
    assert!(check_accessibility_permission().expect("answered").granted);
}

#[test]
fn settings_are_opened_by_the_right_program() {
    let mac = open_microphone_settings(Platform::MacOs).expect("command");
    assert_eq!(mac.program, "open");
    assert_eq!(
        mac.arguments,
        vec!["x-apple.systempreferences:com.apple.preference.security?Privacy_Microphone"]
    );
    let windows = open_accessibility_settings(Platform::Windows).expect("command");
    assert_eq!(windows.program, "cmd");
    assert_eq!(
        windows.arguments,
        vec!["/C", "start", "ms-settings:easeofaccess-keyboard"]
    );
    assert!(open_microphone_settings(Platform::Other).is_err());
    assert!(open_accessibility_settings(Platform::Other).is_err());
}
