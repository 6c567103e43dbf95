use base64::engine::general_purpose::STANDARD;
use base64::Engine;
use flowwisper::desktop::binding::{
    capture_custom_hotkey, choose_window, describe_window, persist_hotkey_binding,
    phases_after_probe, start_fn_probe, tray_title, validate_custom_hotkey, PersistHotkeyRequest,
    SystemAnswer,
};
use flowwisper::desktop::crypto::{
    encode_payload, load_or_create_secret, sign_bytes, sign_payload, verify_bytes,
    verify_envelope, verify_onboarding, HotkeyBinding, HotkeyConfigEnvelope, HotkeyConfigPayload,
    HotkeySecret, HotkeySource, SignatureError,
};
use flowwisper::desktop::dsp::FrameWindowSetting;
use flowwisper::desktop::hotkey::{
    append_probe_log, capture_result, CaptureSignal, FnProbeLogEntry, FnProbeResult,
    HotkeyCapture, HotkeyCompatibilityLayer, HotkeyState, Key, KeyEvent,
};
use flowwisper::desktop::onboarding::{load_hotkey_config, OnboardingPreferences};
use flowwisper::desktop::state::AppState;

fn sample_key(byte: u8) -> Vec<u8> {
    vec![byte; 32]
}

fn app(key: Vec<u8>) -> AppState<f32> {
    AppState::new(key, HotkeyBinding::default(), OnboardingPreferences::new())
}

fn probe(supported: bool, reason: Option<&str>) -> FnProbeResult {
    FnProbeResult {
        supported,
        latency_ms: None,
        raw_latency_ns: None,
        user_reaction_ms: None,
        within_sla: None,
        interface: None,
        device_origin: None,
        reason: reason.map(|r| r.to_string()),
    }
}

fn roundtrip() {
    let key = sample_key(1);
    let payload = HotkeyConfigPayload {
        combination: "Ctrl+Shift+F".into(),
        source: HotkeySource::Custom,
        reason: Some("fallback".into()),
    };
    let signature = sign_payload(&key, &payload).expect("signing should succeed");
    let envelope = HotkeyConfigEnvelope {
        payload: payload.clone(),
        signature,
    };

    let binding = verify_envelope(&key, envelope).expect("verification should pass");

    assert_eq!(binding.combination, payload.combination);
    assert_eq!(binding.source, payload.source);
    assert_eq!(binding.reason, payload.reason);
}

#[test]
fn hotkey_sign_and_verify_envelope_roundtrip() {
    roundtrip();
}

#[test]
fn main_sign_and_verify_envelope_roundtrip() {
    roundtrip();
}

fn tampering() {
    let key = sample_key(2);
    let payload = HotkeyConfigPayload {
        combination: "Fn".into(),
        source: HotkeySource::Fn,
        reason: None,
    };
    let signature = sign_payload(&key, &payload).expect("signing should succeed");
    let mut envelope = HotkeyConfigEnvelope { payload, signature };
    envelope.payload.combination = "Ctrl+Alt+F".into();

    let result = verify_envelope(&key, envelope);
    assert!(result.is_err(), "tampered envelope must be rejected");
}

#[test]
fn hotkey_verify_envelope_detects_tampering() {
    tampering();
}

#[test]
fn main_verify_envelope_detects_tampering() {
    tampering();
}

fn binding_is_signed() {
    let key = sample_key(3);
    let state = app(key.clone());
    let binding = HotkeyBinding {
        combination: "Ctrl+Alt+Space".into(),
        source: HotkeySource::Custom,
        reason: Some("User opted for fallback".into()),
    };

    let envelope = state
        .persist_binding(&binding)
        .expect("persisting binding should succeed");

    assert_eq!(envelope.payload.combination, binding.combination);
    let tag = ring::hmac::sign(
        &ring::hmac::Key::new(ring::hmac::HMAC_SHA256, &key),
        &encode_payload(&envelope.payload).expect("encode"),
    );
    assert_eq!(envelope.signature, STANDARD.encode(tag.as_ref()));
    let verified = verify_envelope(&key, envelope).expect("signature should verify");
    assert_eq!(verified.reason, binding.reason);
}

#[test]
fn hotkey_persist_binding_writes_signed_config() {
    binding_is_signed();
}

#[test]
fn main_persist_binding_writes_signed_config() {
    binding_is_signed();
}

fn log_is_bounded() {
    let mut log: Option<Vec<FnProbeLogEntry>> = None;

    for idx in 0..25u128 {
        let probe = FnProbeResult {
            supported: true,
            latency_ms: Some(idx),
            raw_latency_ns: Some(idx * 1_000_000),
            user_reaction_ms: Some(idx + 1),
            within_sla: Some(idx % 2 == 0),
            interface: Some("test".into()),
            device_origin: Some("keyboard".into()),
            reason: Some(format!("entry-{idx}")),
        };
        log = Some(append_probe_log(log, &probe, idx));
    }

    let entries = log.expect("probe log should exist");
    assert_eq!(entries.len(), 20, "log keeps only the latest 20 entries");
    assert_eq!(entries.first().unwrap().latency_ms, Some(5));
    assert_eq!(entries.last().unwrap().latency_ms, Some(24));
    assert!(entries.iter().all(|entry| entry.reason.is_some()));
}

#[test]
fn hotkey_append_probe_log_retains_latest_entries() {
    log_is_bounded();
}

#[test]
fn main_append_probe_log_retains_latest_entries() {
    log_is_bounded();
}

fn config_is_checked() {
    let key = sample_key(5);
    let payload = HotkeyConfigPayload {
        combination: "Fn".into(),
        source: HotkeySource::Fn,
        reason: None,
    };
    let envelope = HotkeyConfigEnvelope {
        signature: sign_payload(&key, &payload).expect("sign"),
        payload: payload.clone(),
    };

    let loaded = load_hotkey_config(&key, Some(envelope.clone())).expect("config should load");
    assert_eq!(loaded.combination, payload.combination);

    let mut tampered = envelope;
    tampered.signature = "invalid".into();

    assert!(
        load_hotkey_config(&key, Some(tampered)).is_none(),
        "invalid signature should be rejected"
    );
    assert!(load_hotkey_config(&key, None).is_none());
}

#[test]
fn hotkey_load_hotkey_config_roundtrip_and_rejects_invalid_signature() {
    config_is_checked();
}

#[test]
fn main_load_hotkey_config_roundtrip_and_rejects_invalid_signature() {
    config_is_checked();
}

fn secret_is_reused() {
    let first = match load_or_create_secret(None).expect("create key") {
        HotkeySecret::Generated(secret) => secret,
        HotkeySecret::Existing(_) => panic!("nothing was stored"),
    };
    assert_eq!(first.len(), 32);

    let second = match load_or_create_secret(Some(first.clone())).expect("reuse key") {
        HotkeySecret::Existing(secret) => secret,
        HotkeySecret::Generated(_) => panic!("a secret was stored"),
    };
    assert_eq!(first, second, "subsequent loads reuse the same secret");
}

#[test]
fn hotkey_load_or_create_hmac_key_persists_secret() {
    secret_is_reused();
}

#[test]
fn main_load_or_create_hmac_key_persists_secret() {
    secret_is_reused();
}

#[test]
fn a_secret_of_the_wrong_length_is_replaced() {
    match load_or_create_secret(Some(vec![1; 31])).expect("create key") {
        HotkeySecret::Generated(secret) => {
            assert_eq!(secret.len(), 32);
            assert_ne!(secret, vec![0; 32]);
        }
        HotkeySecret::Existing(_) => panic!("too short"),
    }
}

fn conflicts() {
    let conflicts = HotkeyCompatibilityLayer::conflicts();
    assert!(conflicts.contains(&"Alt+F4".to_string()));
    assert!(conflicts.iter().all(|item| !item.is_empty()));
}

#[test]
fn hotkey_conflicts_list_includes_reserved_shortcuts() {
    conflicts();
}

#[test]
fn main_conflicts_list_includes_reserved_shortcuts() {
    conflicts();
}

fn platform_gap() {
    let result = HotkeyCompatibilityLayer::probe_fn();
    assert!(!result.supported);
    let reason = result.reason.expect("reason should exist");
    assert!(reason.contains("尚未实现"));
    assert!(result.interface.is_none());
    assert!(result.within_sla.is_none());
}

#[test]
fn hotkey_probe_fn_reports_platform_gap() {
    platform_gap();
}

#[test]
fn main_probe_fn_reports_platform_gap() {
    platform_gap();
}

#[test]
fn the_signature_is_the_code_of_the_json_text() {
    let key = sample_key(9);
    let payload = HotkeyConfigPayload {
        combination: "Ctrl+\"键\"\n".into(),
        source: HotkeySource::Custom,
        reason: None,
    };
    let json = encode_payload(&payload).expect("encode");
    assert_eq!(
        String::from_utf8(json.clone()).expect("text"),
        "{\"combination\":\"Ctrl+\\\"键\\\"\\n\",\"source\":\"custom\",\"reason\":null}"
    );
    let value: serde_json::Value = serde_json::from_slice(&json).expect("valid JSON");
    assert_eq!(value["combination"], payload.combination);

    let tag = ring::hmac::sign(
        &ring::hmac::Key::new(ring::hmac::HMAC_SHA256, &key),
        &json,
    );
    assert_eq!(
        sign_payload(&key, &payload).expect("sign"),
        STANDARD.encode(tag.as_ref())
    );
}

#[test]
fn control_characters_are_escaped() {
    let payload = HotkeyConfigPayload {
        combination: "\u{0}\u{8}\t\n\u{b}\u{c}\r\u{1f} \"\\/\u{7f}é".into(),
        source: HotkeySource::Fn,
        reason: Some("😀".into()),
    };
    assert_eq!(
        String::from_utf8(encode_payload(&payload).expect("encode")).expect("text"),
        "{\"combination\":\"\\u0000\\b\\t\\n\\u000b\\f\\r\\u001f \\\"\\\\/\u{7f}é\",\
         \"source\":\"fn\",\"reason\":\"😀\"}"
    );
}

#[test]
fn a_known_code_is_reproduced() {
    let key = vec![0x0b; 20];
    let signature = sign_bytes(&key, b"Hi There").expect("short");
    assert_eq!(
        signature,
        STANDARD.encode([
            0xb0, 0x34, 0x4c, 0x61, 0xd8, 0xdb, 0x38, 0x53, 0x5c, 0xa8, 0xaf, 0xce, 0xaf, 0x0b,
            0xf1, 0x2b, 0x88, 0x1d, 0xc2, 0x00, 0xc9, 0x83, 0x3d, 0xa7, 0x26, 0xe9, 0x37, 0x6c,
            0x2e, 0x32, 0xcf, 0xf7u8
        ])
    );
    assert!(verify_bytes(&key, b"Hi There", &signature).is_ok());
    assert!(matches!(
        verify_bytes(&key, b"Hi There!", &signature),
        Err(SignatureError::Mismatch)
    ));
    assert!(matches!(
        verify_bytes(&key, b"Hi There", "@@"),
        Err(SignatureError::Encoding(_))
    ));
}

#[test]
fn signature_errors_are_told_apart() {
    let key = sample_key(4);
    let payload = HotkeyConfigPayload {
        combination: "Fn".into(),
        source: HotkeySource::Fn,
        reason: None,
    };
    let error = verify_envelope(
        &key,
        HotkeyConfigEnvelope {
            payload: payload.clone(),
            signature: "not base64!".into(),
        },
    )
    .expect_err("no signature");
    assert!(error.starts_with("failed to decode hotkey signature: "));
    let error = verify_envelope(
        &key,
        HotkeyConfigEnvelope {
            payload,
            signature: STANDARD.encode([0u8; 32]),
        },
    )
    .expect_err("wrong signature");
    assert_eq!(error, "hotkey signature mismatch");
    assert_eq!(
        verify_onboarding(&key, b"{}", &STANDARD.encode([0u8; 32])),
        Err("onboarding signature mismatch".to_string())
    );
}

#[test]
fn a_probe_in_time_keeps_the_long_window() {
    let mut state = app(sample_key(1));
    let mut found = probe(true, None);
    found.latency_ms = Some(120);
    found.within_sla = Some(true);
    found.interface = Some("IOHID".into());
    let phases = start_fn_probe(&mut state, found);
    assert_eq!(state.frame_window_mode(), FrameWindowSetting::Default);
    assert!(state.frame_window_reason().is_none());
    assert!(state.hotkey.last_probe.is_some());
    let texts: Vec<(String, String)> =
        phases.into_iter().map(|p| (p.name, p.detail)).collect();
    assert_eq!(
        texts,
        vec![
            (
                "Priming".to_string(),
                "Fn 捕获接口: IOHID | 帧窗口 200ms".to_string()
            ),
            (
                "PreRoll".to_string(),
                "Fn 驱动延迟 120ms（满足 400ms SLA） | 帧窗口 200ms".to_string()
            ),
            (
                "Ready".to_string(),
                "Fn key captured; session ready".to_string()
            ),
        ]
    );
}

#[test]
fn a_late_probe_shortens_the_window() {
    let mut found = probe(true, None);
    found.latency_ms = Some(450);
    found.within_sla = Some(false);
    let (mode, reason) = choose_window(&found);
    assert_eq!(mode, FrameWindowSetting::Fallback);
    assert_eq!(reason.as_deref(), Some("Fn 延迟 450ms 超出 400ms SLA"));
    assert_eq!(
        describe_window(mode, &reason),
        "帧窗口 100ms（Fn 延迟 450ms 超出 400ms SLA）"
    );
    found.latency_ms = None;
    assert_eq!(
        choose_window(&found).1.as_deref(),
        Some("Fn 延迟超出 400ms SLA")
    );
}

#[test]
fn a_failed_probe_advises_a_combination() {
    let found = probe(false, Some("驱动缺失"));
    let phases = phases_after_probe(&found, "w");
    assert_eq!(phases[0].detail, "驱动缺失 | w");
    assert_eq!(phases[1].name, "Fallback");
    assert_eq!(phases[1].detail, "Fn 捕获失败：驱动缺失 | w");
    let phases = phases_after_probe(&probe(false, Some("Fn 键缺失")), "w");
    assert_eq!(phases[1].detail, "Fn 键缺失 | w");
    let phases = phases_after_probe(&probe(false, None), "w");
    assert_eq!(phases[1].detail, "Fn 捕获失败，已建议录制备用组合 | w");
}

#[test]
fn conflicts_are_found_whatever_the_case() {
    assert_eq!(
        HotkeyCompatibilityLayer::detect_conflict("alt+f4", &SystemAnswer::Free),
        Ok(Some("Alt+F4".to_string()))
    );
    assert_eq!(
        HotkeyCompatibilityLayer::detect_conflict("Ctrl+J", &SystemAnswer::NotAsked),
        Ok(None)
    );
    assert_eq!(
        HotkeyCompatibilityLayer::detect_conflict("Ctrl+J", &SystemAnswer::Registered),
        Ok(Some("Ctrl+J".to_string()))
    );
    assert_eq!(
        HotkeyCompatibilityLayer::detect_conflict(
            "Ctrl+J",
            &SystemAnswer::Refused("HotKey ALREADY registered".into())
        ),
        Ok(Some("Ctrl+J".to_string()))
    );
    assert_eq!(
        HotkeyCompatibilityLayer::detect_conflict(
            "Ctrl+J",
            &SystemAnswer::Refused("denied".into())
        ),
        Err("无法在系统中注册组合 Ctrl+J: denied".to_string())
    );
    assert_eq!(
        HotkeyCompatibilityLayer::detect_conflict(
            "Ctrl+J",
            &SystemAnswer::Failed("no bus".into())
        ),
        Err("failed to query shortcut: no bus".to_string())
    );
}

#[test]
fn blank_combinations_are_refused() {
    assert_eq!(
        validate_custom_hotkey("  ".into(), &SystemAnswer::Free).err(),
        Some("组合不能为空".to_string())
    );
    let mut state = app(sample_key(1));
    let refused = persist_hotkey_binding(
        &mut state,
        PersistHotkeyRequest {
            combination: "\t".into(),
            source: HotkeySource::Custom,
            reason: None,
        },
        &SystemAnswer::Free,
    );
    assert_eq!(refused.err(), Some("热键组合不能为空".to_string()));
    assert_eq!(state.hotkey.binding.combination, "Fn");
}

#[test]
fn a_custom_hotkey_gets_a_reason() {
    let mut state = app(sample_key(1));
    let phase = persist_hotkey_binding(
        &mut state,
        PersistHotkeyRequest {
            combination: "Ctrl+J".into(),
            source: HotkeySource::Custom,
            reason: None,
        },
        &SystemAnswer::Free,
    )
    .expect("free");
    assert_eq!(phase.detail, "Active combination: Ctrl+J");
    assert_eq!(
        state.hotkey.binding.reason.as_deref(),
        Some("Fn 键未被系统捕获，已切换到备用组合。")
    );
    assert_eq!(tray_title(&state.hotkey.binding), "当前热键: Ctrl+J");

    state.hotkey.last_probe = Some(probe(false, Some("driver")));
    persist_hotkey_binding(
        &mut state,
        PersistHotkeyRequest {
            combination: "Ctrl+K".into(),
            source: HotkeySource::Custom,
            reason: None,
        },
        &SystemAnswer::Free,
    )
    .expect("free");
    assert_eq!(state.hotkey.binding.reason.as_deref(), Some("driver"));

    let refused = persist_hotkey_binding(
        &mut state,
        PersistHotkeyRequest {
            combination: "cmd+q".into(),
            source: HotkeySource::Fn,
            reason: None,
        },
        &SystemAnswer::Free,
    );
    assert_eq!(refused.err(), Some("组合与系统快捷键 Cmd+Q 冲突".to_string()));
    assert_eq!(state.hotkey.binding.combination, "Ctrl+K");
}

#[test]
fn a_captured_combination_is_told() {
    let hotkey = HotkeyState {
        binding: HotkeyBinding::default(),
        last_probe: Some(probe(false, Some("driver"))),
    };
    let (response, phase) =
        capture_custom_hotkey(&hotkey, "Win+L".into(), &SystemAnswer::Free).expect("answered");
    assert_eq!(response.conflict_with.as_deref(), Some("Win+L"));
    assert_eq!(response.reason.as_deref(), Some("driver"));
    assert_eq!(phase.detail, "Captured fallback combination: Win+L");
}

#[test]
fn keys_make_combinations() {
    let mut capture = HotkeyCapture::new(false);
    assert!(capture.on_event(KeyEvent::Press(Key::ControlLeft)).is_none());
    assert!(capture.on_event(KeyEvent::Press(Key::ShiftRight)).is_none());
    assert!(capture.on_event(KeyEvent::Other).is_none());
    match capture.on_event(KeyEvent::Press(Key::KeyF)) {
        Some(CaptureSignal::Captured(text)) => assert_eq!(text, "Ctrl+Shift+F"),
        _ => panic!("expected a combination"),
    }
    assert!(capture
        .on_event(KeyEvent::Release(Key::ControlLeft))
        .is_none());
    match capture.on_event(KeyEvent::Press(Key::Space)) {
        Some(CaptureSignal::Captured(text)) => assert_eq!(text, "Shift+Space"),
        _ => panic!("expected a combination"),
    }
    match capture.on_event(KeyEvent::Press(Key::Function)) {
        Some(CaptureSignal::Error(text)) => assert_eq!(text, "Fn 键无法作为备用组合主键"),
        _ => panic!("expected an error"),
    }
}

#[test]
fn a_release_undoes_a_press() {
    let mut capture = HotkeyCapture::new(true);
    let before = capture.modifiers;
    capture.on_event(KeyEvent::Press(Key::MetaLeft));
    assert_ne!(capture.modifiers, before);
    capture.on_event(KeyEvent::Release(Key::MetaLeft));
    assert_eq!(capture.modifiers, before);
}

#[test]
fn a_capture_can_run_out_of_time() {
    assert!(capture_result(None).is_err());
    assert_eq!(
        capture_result(Some(CaptureSignal::Captured("Ctrl+J".into()))),
        Ok("Ctrl+J".to_string())
    );
    assert_eq!(
        capture_result(Some(CaptureSignal::Error("x".into()))),
        Err("x".to_string())
    );
}

#[test]
fn probes_can_be_simulated() {
    let supported = HotkeyCompatibilityLayer::simulated_probe("SUPPORTED").expect("simulated");
    assert!(supported.supported);
    assert_eq!(supported.latency_ms, Some(1));
    let not = HotkeyCompatibilityLayer::simulated_probe("unsupported").expect("simulated");
    assert!(!not.supported);
    assert!(HotkeyCompatibilityLayer::simulated_probe("no").is_none());
}
