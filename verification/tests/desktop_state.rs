use base64::engine::general_purpose::STANDARD;
use base64::Engine;
use flowwisper::desktop::calibration::{
    calibrate_noise_floor, calibration_complete, calibration_persisted, check_capture,
    device_test_complete, get_device_calibration, persist_calibration_preference,
    run_device_check, CapturedAudio, Measurement, PersistCalibrationRequest, SampleAnalytics,
};
use flowwisper::desktop::commands::{
    complete_session_bootstrap, devices_ready, get_engine_preference, note_permission,
    permission_answered, permission_prompt, permission_status, persist_engine_preference,
    skip_tutorial, tutorial_completion, Permission,
};
use flowwisper::desktop::crypto::{sign_bytes, HotkeyBinding};
use flowwisper::desktop::dsp::FrameWindowSetting;
use flowwisper::desktop::onboarding::{
    load_onboarding_preferences, CalibrationMode, OnboardingPreferences, SavedCalibration,
    TutorialStatus,
};
use flowwisper::desktop::permissions::PermissionCheck;
use flowwisper::desktop::samples::{
    cleanup_stats, derive_audio_cache_keys, open_sample_payload, plan_cleanup,
    sample_envelope_name, seal_with_nonce, SampleFile, SAMPLE_RETENTION_CAPACITY,
    SAMPLE_RETENTION_NS,
};
use flowwisper::desktop::state::AppState;
use serde_json::Value;

fn sample_key(byte: u8) -> Vec<u8> {
    vec![byte; 32]
}

fn app(key: Vec<u8>) -> AppState<f32> {
    AppState::new(key, HotkeyBinding::default(), OnboardingPreferences::new())
}

fn calibration_json(saved: &SavedCalibration<f32>) -> Value {
    let mut map = serde_json::Map::new();
    map.insert("threshold".into(), saved.threshold.into());
    map.insert("noise_floor_db".into(), saved.noise_floor_db.into());
    map.insert("sample_window_ms".into(), saved.sample_window_ms.into());
    map.insert("device_label".into(), saved.device_label.clone().into());
    map.insert("mode".into(), saved.mode.as_str().into());
    map.insert("recommended_threshold".into(), saved.recommended_threshold.into());
    map.insert("updated_at_ms".into(), saved.updated_at_ms.map(|ms| ms as u64).into());
    map.insert("noise_alert".into(), saved.noise_alert.into());
    map.insert("noise_hint".into(), saved.noise_hint.clone().into());
    map.insert("strong_noise_mode".into(), saved.strong_noise_mode.into());
    map.insert("frame_window_ms".into(), saved.frame_window_ms.into());
    Value::Object(map)
}

fn preferences_json(preferences: &OnboardingPreferences<f32>) -> Value {
    let mut permissions = serde_json::Map::new();
    permissions.insert("microphone".into(), preferences.permissions.microphone.into());
    permissions.insert("accessibility".into(), preferences.permissions.accessibility.into());
    let mut calibrations = serde_json::Map::new();
    for entry in &preferences.calibrations {
        calibrations.insert(entry.device_id.clone(), calibration_json(&entry.calibration));
    }
    let mut map = serde_json::Map::new();
    map.insert("engine_choice".into(), preferences.engine_choice.clone().into());
    map.insert("calibrations".into(), Value::Object(calibrations));
    map.insert("tutorial_completed".into(), preferences.tutorial_completed.into());
    map.insert(
        "tutorial_status".into(),
        preferences.tutorial_status.map(|status| status.as_str().to_string()).into(),
    );
    map.insert("permissions".into(), Value::Object(permissions));
    map.insert("selected_microphone".into(), preferences.selected_microphone.clone().into());
    Value::Object(map)
}

fn text_of(value: &Value) -> Option<String> {
    value.as_str().map(str::to_string)
}

fn level_of(value: &Value) -> Option<f32> {
    value.as_f64().map(|level| level as f32)
}

fn preferences_of(value: &Value) -> OnboardingPreferences<f32> {
    let mut preferences = OnboardingPreferences::new();
    preferences.engine_choice = text_of(&value["engine_choice"]);
    for (device_id, saved) in value["calibrations"].as_object().expect("calibrations") {
        preferences.insert_calibration(
            device_id,
            SavedCalibration {
                threshold: level_of(&saved["threshold"]).expect("threshold"),
                noise_floor_db: level_of(&saved["noise_floor_db"]).expect("noise floor"),
                sample_window_ms: saved["sample_window_ms"].as_u64().expect("window") as u32,
                device_label: text_of(&saved["device_label"]),
                mode: CalibrationMode::parse(saved["mode"].as_str().expect("mode")).expect("mode"),
                recommended_threshold: level_of(&saved["recommended_threshold"]),
                updated_at_ms: saved["updated_at_ms"].as_u64().map(u128::from),
                noise_alert: saved["noise_alert"].as_bool().expect("alert"),
                noise_hint: text_of(&saved["noise_hint"]),
                strong_noise_mode: saved["strong_noise_mode"].as_bool().expect("mode"),
                frame_window_ms: saved["frame_window_ms"].as_u64().map(|ms| ms as u32),
            },
        );
    }
    preferences.tutorial_completed = value["tutorial_completed"].as_bool().expect("flag");
    preferences.tutorial_status = match value["tutorial_status"].as_str() {
        Some("completed") => Some(TutorialStatus::Completed),
        Some("skipped") => Some(TutorialStatus::Skipped),
        _ => None,
    };
    preferences.permissions.microphone = value["permissions"]["microphone"] == true;
    preferences.permissions.accessibility = value["permissions"]["accessibility"] == true;
    preferences.selected_microphone = text_of(&value["selected_microphone"]);
    preferences
}

/// Stores the preferences of a state as signed text, and starts anew from it.
fn restart(state: AppState<f32>, key: Vec<u8>) -> AppState<f32> {
    let serialized = serde_json::to_vec(&preferences_json(&state.onboarding)).expect("JSON");
    let signature = sign_bytes(&key, &serialized).expect("short");
    let stored = preferences_of(&serde_json::from_slice(&serialized).expect("JSON"));
    let onboarding = load_onboarding_preferences(&key, Some((stored, serialized, signature)));
    AppState::new(key, HotkeyBinding::default(), onboarding)
}

fn calibration(threshold: f32) -> SavedCalibration<f32> {
    SavedCalibration {
        threshold,
        noise_floor_db: -42.0,
        sample_window_ms: 5000,
        device_label: None,
        mode: CalibrationMode::Manual,
        recommended_threshold: None,
        updated_at_ms: None,
        noise_alert: false,
        noise_hint: None,
        strong_noise_mode: false,
        frame_window_ms: None,
    }
}

#[test]
fn onboarding_preferences_are_signed_and_verified() {
    let key = sample_key(31);
    let mut state = app(key.clone());

    state
        .update_permission_status("microphone", true)
        .expect("permission update should persist");

    let payload = preferences_json(&state.onboarding);
    let serialized = serde_json::to_vec(&payload).expect("JSON");
    let signature = sign_bytes(&key, &serialized).expect("short");
    let verified = load_onboarding_preferences(
        &key,
        Some((preferences_of(&payload), serialized, signature.clone())),
    );
    assert!(
        verified.permissions.microphone,
        "permission flag should be restored from verified payload"
    );

    let mut tampered = payload;
    tampered["permissions"]["accessibility"] = true.into();
    let serialized = serde_json::to_vec(&tampered).expect("JSON");
    let rejected = load_onboarding_preferences(
        &key,
        Some((preferences_of(&tampered), serialized, signature)),
    );
    assert!(
        !rejected.permissions.microphone,
        "tampered onboarding payload should be rejected"
    );
}

#[test]
fn device_sample_roundtrip_is_sealed() {
    let state = app(sample_key(7));

    let payload = vec![1u8, 2, 3, 4, 5, 6, 7, 8];
    let (name, envelope) = state
        .store_device_sample("device-test-sealed", &payload)
        .expect("storing device sample should succeed");
    assert_eq!(name, "device-test-sealed.json");
    let ciphertext = STANDARD
        .decode(envelope.ciphertext.as_bytes())
        .expect("ciphertext should decode");
    assert_ne!(ciphertext, payload);

    let restored = state
        .load_device_sample(&envelope)
        .expect("loading device sample should succeed");
    assert_eq!(restored, payload);
}

#[test]
fn device_sample_detects_tampering() {
    let state = app(sample_key(11));

    let payload = vec![9u8, 8, 7, 6, 5, 4, 3, 2];
    let (_, mut envelope) = state
        .store_device_sample("device-test-tamper", &payload)
        .expect("storing device sample should succeed");

    let mut ciphertext = STANDARD
        .decode(envelope.ciphertext.as_bytes())
        .expect("ciphertext should decode");
    ciphertext[0] ^= 0xAA;
    envelope.ciphertext = STANDARD.encode(ciphertext);

    let result = state.load_device_sample(&envelope);
    assert!(result.is_err(), "tampering must be detected");
}

#[test]
fn device_sample_cannot_be_opened_with_different_audio_key() {
    let state = app(sample_key(9));

    let payload = vec![5u8; 160];
    let (_, envelope) = state
        .store_device_sample("device-test", &payload)
        .expect("sealing succeeds");
    assert_eq!(
        state.store_device_sample("", &payload).err(),
        Some("sample token cannot be empty".to_string())
    );

    let restored = app(sample_key(10));
    let result = restored.load_device_sample(&envelope);
    assert!(
        result.is_err(),
        "audio samples must not decrypt with a different derived key"
    );
}

#[test]
fn audio_cache_keys_are_derived_deterministically() {
    let master = sample_key(21);
    let keys_a = derive_audio_cache_keys(&master).expect("derive keys");
    let keys_b = derive_audio_cache_keys(&master).expect("derive keys again");
    assert_eq!(keys_a, keys_b, "derivation should be deterministic");

    let other_master = sample_key(22);
    let keys_c = derive_audio_cache_keys(&other_master).expect("derive other keys");
    assert_ne!(keys_a, keys_c, "different masters must yield distinct keys");
}

#[test]
fn audio_cache_keys_differ_from_each_other() {
    let master = sample_key(21);
    let keys = derive_audio_cache_keys(&master).expect("derive keys");
    assert_ne!(keys.encryption_key(), keys.signing_key());
    assert_ne!(keys.encryption_key().to_vec(), master);
    assert!(derive_audio_cache_keys(&[1; 31]).is_err());
}

#[test]
fn sealing_depends_on_the_nonce_and_names_its_version() {
    let keys = derive_audio_cache_keys(&sample_key(3)).expect("derive keys");
    let a = seal_with_nonce(&keys, [1; 12], b"sound").expect("seal");
    let b = seal_with_nonce(&keys, [2; 12], b"sound").expect("seal");
    assert_ne!(a.ciphertext, b.ciphertext);
    assert_eq!(a.version, 1);
    assert_eq!(a.nonce, STANDARD.encode([1u8; 12]));
    assert_eq!(
        STANDARD.decode(&a.ciphertext).expect("text").len(),
        b"sound".len() + 16
    );
    assert_eq!(open_sample_payload(&keys, &a), Ok(b"sound".to_vec()));
    assert_eq!(open_sample_payload(&keys, &b), Ok(b"sound".to_vec()));
}

#[test]
fn envelopes_can_be_wrong_in_many_ways() {
    let keys = derive_audio_cache_keys(&sample_key(3)).expect("derive keys");
    let good = seal_with_nonce(&keys, [1; 12], b"sound").expect("seal");

    let mut wrong = good.clone();
    wrong.version = 2;
    assert_eq!(
        open_sample_payload(&keys, &wrong),
        Err("unsupported sample envelope version: 2".to_string())
    );
    let mut wrong = good.clone();
    wrong.nonce = "*".into();
    assert!(open_sample_payload(&keys, &wrong).is_err());
    let mut wrong = good.clone();
    wrong.nonce = STANDARD.encode([1u8; 11]);
    assert!(open_sample_payload(&keys, &wrong).is_err());
    let mut wrong = good.clone();
    wrong.ciphertext = "*".into();
    assert!(open_sample_payload(&keys, &wrong).is_err());
    let mut wrong = good.clone();
    wrong.signature = "*".into();
    assert!(open_sample_payload(&keys, &wrong).is_err());
    let mut wrong = good.clone();
    wrong.signature = STANDARD.encode([0u8; 32]);
    assert!(open_sample_payload(&keys, &wrong).is_err());
}

#[test]
fn envelopes_are_stored_under_their_token() {
    assert_eq!(
        sample_envelope_name("device-test-1"),
        Ok("device-test-1.json".to_string())
    );
    assert_eq!(
        sample_envelope_name("kept.json"),
        Ok("kept.json".to_string())
    );
}

fn file(age_ns: u128, modified_ms: u128) -> SampleFile {
    SampleFile { age_ns, modified_ms }
}

#[test]
fn sample_cleanup_removes_expired_entries() {
    let files = vec![file(SAMPLE_RETENTION_NS + 60_000_000_000, 1_000)];
    let plan = plan_cleanup(&files);
    let stats = cleanup_stats(&plan, 0);
    assert!(stats.removed >= 1, "expired sample should be removed");
    assert_eq!(plan.expired, vec![0]);
}

#[test]
fn sample_cleanup_limits_capacity() {
    let mut files = Vec::new();
    for idx in 0..(SAMPLE_RETENTION_CAPACITY + 3) {
        let offset = (SAMPLE_RETENTION_CAPACITY + 3 - idx) as u128;
        files.push(file(offset * 1_000_000_000, 1_000_000 - offset * 1_000));
    }
    let plan = plan_cleanup(&files);
    let stats = cleanup_stats(&plan, 0);
    assert!(
        stats.retained <= SAMPLE_RETENTION_CAPACITY,
        "sample directory should respect retention capacity"
    );
    assert_eq!(plan.evicted, vec![0, 1, 2]);
    assert_eq!(plan.kept, vec![3, 4, 5, 6, 7]);
}

#[test]
fn sample_cleanup_reports_errors_when_deletion_fails() {
    let files = vec![file(SAMPLE_RETENTION_NS + 60_000_000_000, 1_000)];
    let plan = plan_cleanup(&files);
    let stats = cleanup_stats(&plan, 1);
    assert!(
        stats.errors >= 1,
        "cleanup should report removal errors when directory is read-only"
    );
    assert_eq!(stats.removed, 0, "sample remains when deletion fails");
}

#[test]
fn onboarding_preferences_persist_between_sessions() {
    let key = sample_key(6);
    let mut state = app(key.clone());

    state.update_engine_choice("hybrid");
    state.save_calibration(
        "device::1",
        SavedCalibration {
            threshold: 0.55,
            noise_floor_db: -42.0,
            sample_window_ms: 5000,
            device_label: Some("Mock".into()),
            mode: CalibrationMode::Manual,
            recommended_threshold: Some(0.62),
            updated_at_ms: None,
            noise_alert: false,
            noise_hint: None,
            strong_noise_mode: false,
            frame_window_ms: None,
        },
    );
    state.mark_tutorial_complete();

    let restored = restart(state, key);
    assert_eq!(
        restored.engine_choice().as_deref(),
        Some("hybrid"),
        "engine choice should be restored"
    );
    let calibration = restored
        .calibration_for("device::1")
        .expect("calibration restored");
    assert!((calibration.threshold - 0.55).abs() < f32::EPSILON);
    assert_eq!(calibration.mode, CalibrationMode::Manual);
    assert_eq!(calibration.recommended_threshold, Some(0.62));
    assert!(calibration.updated_at_ms.is_some());
    assert!(
        restored.tutorial_completed(),
        "tutorial completion restored"
    );
    assert_eq!(
        restored.tutorial_status(),
        Some(TutorialStatus::Completed),
        "tutorial status should record completion"
    );
}

#[test]
fn tutorial_skip_is_recorded_and_restored() {
    let key = sample_key(7);
    let mut state = app(key.clone());

    state.mark_tutorial_skipped();

    let restored = restart(state, key);
    assert!(
        restored.tutorial_completed(),
        "skipping should still satisfy onboarding requirements"
    );
    assert_eq!(
        restored.tutorial_status(),
        Some(TutorialStatus::Skipped),
        "tutorial status should indicate skipped"
    );
}

#[test]
fn permission_status_roundtrip_and_validation() {
    let key = sample_key(7);
    let mut state = app(key.clone());

    let initial = state.permission_status();
    assert!(!initial.microphone);
    assert!(!initial.accessibility);

    state
        .update_permission_status("microphone", true)
        .expect("microphone flag persists");
    state
        .update_permission_status("accessibility", false)
        .expect("accessibility flag persists");

    let mut restored = restart(state, key);
    let status = restored.permission_status();
    assert!(status.microphone);
    assert!(!status.accessibility);

    let err = restored.update_permission_status("unknown", true);
    assert!(err.is_err(), "unknown permission keys should be rejected");
    assert_eq!(err, Err("unknown permission key: unknown".to_string()));
}

#[test]
fn selected_microphone_persists_and_can_be_cleared() {
    let key = sample_key(8);
    let mut state = app(key.clone());

    assert!(state.selected_microphone().is_none());
    state.persist_selected_microphone(Some("device::primary".into()));
    assert_eq!(
        state.selected_microphone().as_deref(),
        Some("device::primary")
    );

    let mut restored = restart(state, key);
    assert_eq!(
        restored.selected_microphone().as_deref(),
        Some("device::primary")
    );
    restored.persist_selected_microphone(None);
    assert!(restored.selected_microphone().is_none());
}

#[test]
fn a_saved_calibration_is_completed_from_the_one_before() {
    let mut state = app(sample_key(1));
    let mut first = calibration(0.4);
    first.device_label = Some("Desk".into());
    first.mode = CalibrationMode::Auto;
    state.save_calibration_at("a::0", first, 10);
    let kept = state.calibration_for("a::0").expect("saved");
    assert_eq!(kept.recommended_threshold, None);
    assert_eq!(kept.frame_window_ms, Some(200));
    assert_eq!(kept.updated_at_ms, Some(10));

    state.set_frame_window(FrameWindowSetting::Fallback, None);
    state.save_calibration_at("a::0", calibration(0.5), 20);
    let kept = state.calibration_for("a::0").expect("saved");
    assert_eq!(kept.recommended_threshold, Some(0.4));
    assert_eq!(kept.device_label.as_deref(), Some("Desk"));
    assert_eq!(kept.frame_window_ms, Some(100));
    assert_eq!(kept.updated_at_ms, Some(20));

    state.save_calibration_at("b::1", calibration(0.7), 30);
    assert_eq!(
        state.calibration_for("b::1").expect("saved").recommended_threshold,
        Some(0.7)
    );
    assert_eq!(
        state.calibration_for("a::0").expect("kept").threshold,
        0.5
    );
    assert!(state.calibration_for("c::2").is_none());
}

#[test]
fn modes_are_parsed_by_name() {
    assert_eq!(CalibrationMode::parse("AUTO"), Ok(CalibrationMode::Auto));
    assert_eq!(CalibrationMode::parse("manual"), Ok(CalibrationMode::Manual));
    assert_eq!(
        CalibrationMode::parse("Loud"),
        Err("未知的校准模式: loud".to_string())
    );
    assert_eq!(CalibrationMode::Manual.as_str(), "manual");
    assert_eq!(CalibrationMode::default(), CalibrationMode::Auto);
    assert_eq!(TutorialStatus::Skipped.as_str(), "skipped");
}

fn measurement(threshold: f32) -> Measurement<f32> {
    Measurement {
        recommended_threshold: threshold,
        noise_floor_db: -50.0,
        capture: CapturedAudio {
            sample_rate: 16_000,
            duration_ms: 5_000,
            frame_window_ms: 200,
        },
        noise_alert: true,
        noise_hint: Some("noisy".into()),
    }
}

#[test]
fn strong_noise_mode_outlasts_a_measurement() {
    let mut state = app(sample_key(1));
    let chosen = persist_calibration_preference(
        &mut state,
        PersistCalibrationRequest {
            device_id: "Desk::default".into(),
            device_label: None,
            threshold: 0.3,
            recommended_threshold: None,
            noise_floor_db: -60.0,
            sample_window_ms: 5_000,
            frame_window_ms: None,
            mode: "Manual".into(),
            noise_alert: false,
            noise_hint: None,
            strong_noise_mode: true,
        },
    )
    .expect("mode is known");
    assert_eq!(chosen.device_label, "已保存设备");
    assert_eq!(chosen.recommended_threshold, 0.3);
    assert_eq!(chosen.mode, "manual");
    assert_eq!(chosen.frame_window_ms, 200);

    let measured = calibrate_noise_floor(&mut state, None, "Desk".into(), measurement(0.6));
    assert_eq!(measured.device_id, "Desk::default");
    assert_eq!(measured.device_label, "Desk");
    assert_eq!(measured.applied_threshold, 0.6);
    assert_eq!(measured.mode, "auto");
    assert!(measured.strong_noise_mode);
    assert!(measured.noise_alert);
    assert_eq!(
        get_device_calibration(&state, "Desk::default")
            .expect("saved")
            .applied_threshold,
        0.6
    );
    assert!(get_device_calibration(&state, "Other").is_none());
}

#[test]
fn an_unknown_mode_is_not_saved() {
    let mut state = app(sample_key(1));
    let refused = persist_calibration_preference(
        &mut state,
        PersistCalibrationRequest {
            device_id: "a".into(),
            device_label: None,
            threshold: 0.3,
            recommended_threshold: None,
            noise_floor_db: -60.0,
            sample_window_ms: 5_000,
            frame_window_ms: None,
            mode: "Off".into(),
            noise_alert: false,
            noise_hint: None,
            strong_noise_mode: true,
        },
    );
    assert_eq!(refused.err(), Some("未知的校准模式: off".to_string()));
    assert!(state.calibration_for("a").is_none());
}

#[test]
fn phases_show_their_numbers() {
    assert_eq!(
        calibration_complete("-50.0", "0.62", 200).detail,
        "Noise floor -50.0 dB, recommended threshold 0.62 | 帧窗口 200ms"
    );
    assert_eq!(
        calibration_persisted(CalibrationMode::Auto, "0.62").detail,
        "自动模式阈值 0.62"
    );
    assert_eq!(
        device_test_complete("20.5", "-3.0", 100).detail,
        "SNR 20.5 dB, peak -3.0 dBFS | 帧窗口 100ms"
    );
    assert_eq!(devices_ready(3).detail, "Discovered 3 devices");
}

#[test]
fn a_device_test_is_reported_under_its_token() {
    let report = run_device_check(
        None,
        "USB Mic 2".into(),
        CapturedAudio {
            sample_rate: 16_000,
            duration_ms: 5_000,
            frame_window_ms: 100,
        },
        SampleAnalytics {
            peak_db: -6.0_f32,
            rms_db: -12.0,
            noise_floor_db: -30.0,
            snr_db: 4.0,
        },
        (true, Some("noisy".into())),
        vec![0.5, 0.25],
        1_700_000_000_123,
    );
    assert_eq!(report.device_id, "USB-Mic-2::default");
    assert_eq!(report.sample_token, "device-test-USB-Mic-2-1700000000123");
    assert_eq!(report.peak_dbfs, -6.0);
    assert!(report.noise_alert);
    assert!(check_capture(0).is_err());
    assert!(check_capture(1).is_ok());
}

#[test]
fn permissions_are_noted_and_told() {
    let mut state = app(sample_key(1));
    assert_eq!(
        permission_prompt(Permission::Microphone).detail,
        "Requesting microphone access"
    );
    let check = PermissionCheck {
        granted: true,
        manual_hint: None,
        detail: Some("ok".into()),
    };
    let phase = permission_answered(Permission::Accessibility, &check);
    assert_eq!(phase.name, "PermissionGranted");
    assert_eq!(phase.detail, "Accessibility permission granted");
    let response = note_permission(&mut state, Permission::Accessibility, check, "linux".into());
    assert!(response.granted);
    assert_eq!(response.platform, "linux");
    assert!(permission_status(&state).accessibility);
    assert!(!permission_status(&state).microphone);

    let refused = PermissionCheck {
        granted: false,
        manual_hint: None,
        detail: None,
    };
    let phase = permission_answered(Permission::Microphone, &refused);
    assert_eq!(phase.name, "PermissionRequired");
    assert_eq!(phase.detail, "需要用户手动授予麦克风权限");
}

#[test]
fn the_engine_and_the_tutorial_are_remembered() {
    let mut state = app(sample_key(1));
    assert_eq!(get_engine_preference(&state).choice, None);
    assert_eq!(get_engine_preference(&state).recommended, "hybrid");
    assert_eq!(
        persist_engine_preference(&mut state, "local").choice.as_deref(),
        Some("local")
    );
    assert!(!tutorial_completion(&state).finished);
    assert_eq!(skip_tutorial(&mut state).name, "TutorialSkipped");
    assert_eq!(
        tutorial_completion(&state).status.as_deref(),
        Some("skipped")
    );
    assert_eq!(complete_session_bootstrap(&mut state).name, "Completed");
    assert_eq!(
        tutorial_completion(&state).status.as_deref(),
        Some("completed")
    );
}

#[test]
fn a_cleanup_accounts_for_every_sample() {
    let hour_ns = 3_600_000_000_000u128;
    let files = [
        file(30 * hour_ns, 1),
        file(hour_ns, 9),
        file(26 * hour_ns, 2),
        file(hour_ns, 4),
        file(hour_ns, 8),
        file(hour_ns, 5),
        file(hour_ns, 7),
        file(hour_ns, 6),
        file(25 * hour_ns, 3),
    ];
    let plan = plan_cleanup(&files);
    assert_eq!(plan.expired, vec![0, 2, 8]);
    assert_eq!(plan.evicted, vec![3]);
    assert_eq!(plan.kept, vec![5, 7, 6, 4, 1]);
    let stats = cleanup_stats(&plan, 2);
    assert_eq!((stats.removed, stats.errors, stats.retained), (2, 2, 5));
    assert_eq!(stats.removed + stats.errors + stats.retained, files.len());
}

#[test]
fn a_new_state_has_an_idle_session() {
    let state = app(sample_key(3));
    assert_eq!(state.session.snapshot().phase, "Idle");
    assert_eq!(
        state.session.snapshot().detail,
        "Core service bridge not connected — awaiting initialization"
    );
    assert_eq!(state.session.timeline().len(), 1);
    assert_eq!(
        state.session.timeline()[0].detail,
        "Core service bridge not connected — awaiting initialization"
    );
}

#[test]
fn stored_preferences_need_their_own_key_and_text() {
    let mut state = app(sample_key(4));
    state.update_permission_status("microphone", true).expect("known");
    let serialized = b"preferences".to_vec();
    let signature = sign_bytes(&sample_key(4), &serialized).expect("short");

    let load = |key: u8, text: &[u8]| {
        let mut stored = OnboardingPreferences::<f32>::new();
        stored.permissions = state.permission_status();
        load_onboarding_preferences(&sample_key(key), Some((stored, text.to_vec(), signature.clone())))
    };
    assert!(load(4, b"preferences").permissions.microphone);
    assert!(!load(5, b"preferences").permissions.microphone);
    assert!(!load(4, b"Preferences").permissions.microphone);
}

#[test]
fn a_sample_needs_its_own_signature_and_outlasts_a_restart() {
    let state = app(sample_key(6));
    let (_, mut envelope) = state.store_device_sample("token", &[1, 2, 3]).expect("stored");
    let reader = restart(state, sample_key(6));
    assert_eq!(reader.load_device_sample(&envelope), Ok(vec![1, 2, 3]));

    let mut tag = STANDARD.decode(envelope.signature.as_bytes()).expect("base64");
    tag[31] ^= 1;
    envelope.signature = STANDARD.encode(tag);
    assert_eq!(
        reader.load_device_sample(&envelope),
        Err("failed to decrypt device sample: sample signature mismatch".to_string())
    );
}
