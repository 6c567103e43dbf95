//! Measuring a microphone, and what is kept and shown of it.
use vstd::prelude::*;

use crate::desktop::binding::Phase;
use crate::desktop::devices;
use crate::desktop::dsp;
use crate::desktop::onboarding::{self, Calibration, CalibrationMode, SavedCalibration};
use crate::desktop::state::{self, AppState};
use crate::text;

verus! {

/// The levels in a recording.
#[derive(Debug, Clone, Copy)]
pub struct SampleAnalytics<L> {
    pub peak_db: L,
    pub rms_db: L,
    pub noise_floor_db: L,
    pub snr_db: L,
}

/// A recording, apart from its samples.
#[derive(Debug, Clone, Copy)]
pub struct CapturedAudio {
    pub sample_rate: u32,
    pub duration_ms: u32,
    pub frame_window_ms: u32,
}

/// Accepts a recording that holds something.
pub fn check_capture(samples: usize) -> (r: Result<(), String>)
    ensures
        r is Ok <==> samples > 0,
        r matches Err(message) ==> message@ == "录音缓冲为空，请确认麦克风是否可用"@,
{
    if samples == 0 {
        Err("录音缓冲为空，请确认麦克风是否可用".to_owned())
    } else {
        Ok(())
    }
}

/// What a device test found.
#[derive(Debug, Clone)]
pub struct DeviceTestReport<L> {
    pub device_id: String,
    pub device_label: String,
    pub duration_ms: u32,
    pub sample_rate: u32,
    pub snr_db: L,
    pub peak_dbfs: L,
    pub rms_dbfs: L,
    pub noise_floor_db: L,
    pub noise_alert: bool,
    pub noise_hint: Option<String>,
    pub waveform: Vec<L>,
    pub sample_token: String,
    pub frame_window_ms: u32,
}

/// Puts a device test together. The recording is kept under the token, which
/// tells the device and the time.
pub fn run_device_check<L: Copy>(
    device_id: Option<&str>,
    label: String,
    capture: CapturedAudio,
    analytics: SampleAnalytics<L>,
    noise: (bool, Option<String>),
    waveform: Vec<L>,
    timestamp_ms: u128,
) -> (r: DeviceTestReport<L>)
    ensures
        r.device_id@ == devices::key_of(
            match device_id {
                Some(id) => Some(id@),
                None => None,
            },
            label@,
        ),
        r.device_label == label,
        r.duration_ms == capture.duration_ms,
        r.sample_rate == capture.sample_rate,
        r.frame_window_ms == capture.frame_window_ms,
        r.snr_db == analytics.snr_db,
        r.peak_dbfs == analytics.peak_db,
        r.rms_dbfs == analytics.rms_db,
        r.noise_floor_db == analytics.noise_floor_db,
        r.noise_alert == noise.0,
        r.noise_hint == noise.1,
        r.waveform == waveform,
        r.sample_token@ == "device-test-"@ + devices::sanitized(label@) + "-"@ + text::decimal_text(
            timestamp_ms as nat,
        ),
{
    let resolved = devices::resolved_id(device_id, label.as_str());
    let sample_token = devices::device_test_token(label.as_str(), timestamp_ms);
    DeviceTestReport {
        device_id: resolved,
        device_label: label,
        duration_ms: capture.duration_ms,
        sample_rate: capture.sample_rate,
        snr_db: analytics.snr_db,
        peak_dbfs: analytics.peak_db,
        rms_dbfs: analytics.rms_db,
        noise_floor_db: analytics.noise_floor_db,
        noise_alert: noise.0,
        noise_hint: noise.1,
        waveform,
        sample_token,
        frame_window_ms: capture.frame_window_ms,
    }
}

/// What a calibration measured.
#[derive(Debug)]
pub struct Measurement<L> {
    pub recommended_threshold: L,
    pub noise_floor_db: L,
    pub capture: CapturedAudio,
    pub noise_alert: bool,
    pub noise_hint: Option<String>,
}

/// What a calibration found.
#[derive(Debug)]
pub struct CalibrationComputation<L> {
    pub device_id: String,
    pub device_label: String,
    pub recommended_threshold: L,
    pub noise_floor_db: L,
    pub sample_window_ms: u32,
    pub frame_window_ms: u32,
}

/// The calibration that a measurement gives: the recommended threshold is used,
/// and strong noise suppression stays as it was.
pub open spec fn measured<L>(
    label: Seq<char>,
    m: Measurement<L>,
    strong_noise_mode: bool,
) -> Calibration<L> {
    Calibration {
        threshold: m.recommended_threshold,
        noise_floor_db: m.noise_floor_db,
        sample_window_ms: m.capture.duration_ms,
        device_label: Some(label),
        mode: CalibrationMode::Auto,
        recommended_threshold: Some(m.recommended_threshold),
        updated_at_ms: None,
        noise_alert: m.noise_alert,
        noise_hint: text::opt_text(m.noise_hint),
        strong_noise_mode,
        frame_window_ms: Some(m.capture.frame_window_ms),
    }
}

/// Whether a device is in strong noise suppression.
pub open spec fn is_in_strong_noise<L>(
    calibrations: Map<Seq<char>, Calibration<L>>,
    device_id: Seq<char>,
) -> bool {
    calibrations.contains_key(device_id) && calibrations[device_id].strong_noise_mode
}

/// Saves what was measured of a device. Returns what was found, and the time
/// that was noted.
pub fn calibrate_device<L: Copy>(
    app: &mut AppState<L>,
    device_id: Option<&str>,
    label: String,
    measurement: Measurement<L>,
) -> (r: (CalibrationComputation<L>, u128))
    requires
        state::state_ok(*old(app)),
    ensures
        state::state_ok(*final(app)),
        r.0.device_id@ == devices::key_of(
            match device_id {
                Some(id) => Some(id@),
                None => None,
            },
            label@,
        ),
        r.0.device_label@ == label@,
        r.0.recommended_threshold == measurement.recommended_threshold,
        r.0.noise_floor_db == measurement.noise_floor_db,
        r.0.sample_window_ms == measurement.capture.duration_ms,
        r.0.frame_window_ms == measurement.capture.frame_window_ms,
        state::prefers(
            *final(app),
            *old(app),
            state::with_calibration(
                old(app).onboarding@,
                r.0.device_id@,
                measured(
                    label@,
                    measurement,
                    is_in_strong_noise(old(app).onboarding@.calibrations, r.0.device_id@),
                ),
                dsp::window_ms(old(app).frame_window.mode),
                r.1,
            ),
        ),
{
    let key = devices::resolved_id(device_id, label.as_str());
    let strong_noise_mode = match app.onboarding.calibration(key.as_str()) {
        Some(existing) => existing.strong_noise_mode,
        None => false,
    };
    let saved = SavedCalibration {
        threshold: measurement.recommended_threshold,
        noise_floor_db: measurement.noise_floor_db,
        sample_window_ms: measurement.capture.duration_ms,
        device_label: Some(label.clone()),
        mode: CalibrationMode::Auto,
        recommended_threshold: Some(measurement.recommended_threshold),
        updated_at_ms: None,
        noise_alert: measurement.noise_alert,
        noise_hint: measurement.noise_hint,
        strong_noise_mode,
        frame_window_ms: Some(measurement.capture.frame_window_ms),
    };
    let now_ms: u128 = app.save_calibration(key.as_str(), saved);
    (
        CalibrationComputation {
            device_id: key,
            device_label: label,
            recommended_threshold: measurement.recommended_threshold,
            noise_floor_db: measurement.noise_floor_db,
            sample_window_ms: measurement.capture.duration_ms,
            frame_window_ms: measurement.capture.frame_window_ms,
        },
        now_ms,
    )
}

/// A calibration as it is shown.
#[derive(Debug, Clone)]
pub struct CalibrationResult<L> {
    pub device_id: String,
    pub device_label: String,
    pub recommended_threshold: L,
    pub applied_threshold: L,
    pub noise_floor_db: L,
    pub sample_window_ms: u32,
    pub frame_window_ms: u32,
    pub mode: String,
    pub updated_at_ms: Option<u128>,
    pub noise_alert: bool,
    pub noise_hint: Option<String>,
    pub strong_noise_mode: bool,
}

/// Whether a saved calibration is shown so: what it leaves open is shown as a
/// saved device, its own threshold and the window in use.
pub open spec fn shows<L>(
    r: CalibrationResult<L>,
    device_id: Seq<char>,
    saved: Calibration<L>,
    window_ms: u32,
) -> bool {
    &&& r.device_id@ == device_id
    &&& r.device_label@ == (match saved.device_label {
        Some(label) => label,
        None => "已保存设备"@,
    })
    &&& r.recommended_threshold == (match saved.recommended_threshold {
        Some(recommended) => recommended,
        None => saved.threshold,
    })
    &&& r.applied_threshold == saved.threshold
    &&& r.noise_floor_db == saved.noise_floor_db
    &&& r.sample_window_ms == saved.sample_window_ms
    &&& r.frame_window_ms == (match saved.frame_window_ms {
        Some(ms) => ms,
        None => window_ms,
    })
    &&& r.mode@ == onboarding::mode_name(saved.mode)
    &&& r.updated_at_ms == saved.updated_at_ms
    &&& r.noise_alert == saved.noise_alert
    &&& text::opt_text(r.noise_hint) == saved.noise_hint
    &&& r.strong_noise_mode == saved.strong_noise_mode
}

/// A saved calibration as it is shown.
pub fn show_calibration<L: Copy>(
    device_id: &str,
    saved: &SavedCalibration<L>,
    window_ms: u32,
) -> (r: CalibrationResult<L>)
    ensures
        shows(r, device_id@, saved@, window_ms),
{
    CalibrationResult {
        device_id: device_id.to_owned(),
        device_label: match &saved.device_label {
            Some(label) => label.clone(),
            None => "已保存设备".to_owned(),
        },
        recommended_threshold: match saved.recommended_threshold {
            Some(recommended) => recommended,
            None => saved.threshold,
        },
        applied_threshold: saved.threshold,
        noise_floor_db: saved.noise_floor_db,
        sample_window_ms: saved.sample_window_ms,
        frame_window_ms: match saved.frame_window_ms {
            Some(ms) => ms,
            None => window_ms,
        },
        mode: saved.mode.as_str().to_owned(),
        updated_at_ms: saved.updated_at_ms,
        noise_alert: saved.noise_alert,
        noise_hint: text::copy_opt(&saved.noise_hint),
        strong_noise_mode: saved.strong_noise_mode,
    }
}

/// What is kept of a device's calibration, if it has one.
pub fn existing_calibration<L: Copy>(app: &AppState<L>, device_id: &str) -> (r: Option<
    SavedCalibration<L>,
>)
    requires
        state::state_ok(*app),
    ensures
        match r {
            Some(calibration) => app.onboarding@.calibrations.contains_key(device_id@)
                && app.onboarding@.calibrations[device_id@] == calibration@,
            None => !app.onboarding@.calibrations.contains_key(device_id@),
        },
{
    app.calibration_for(device_id)
}

/// The calibration of a device as it is shown, if there is one.
pub fn get_device_calibration<L: Copy>(app: &AppState<L>, device_id: &str) -> (r: Option<
    CalibrationResult<L>,
>)
    requires
        state::state_ok(*app),
    ensures
        match r {
            Some(shown) => app.onboarding@.calibrations.contains_key(device_id@) && shows(
                shown,
                device_id@,
                app.onboarding@.calibrations[device_id@],
                dsp::window_ms(app.frame_window.mode),
            ),
            None => !app.onboarding@.calibrations.contains_key(device_id@),
        },
{
    match existing_calibration(app, device_id) {
        Some(saved) => Some(
            show_calibration(device_id, &saved, app.frame_window.mode.duration_ms()),
        ),
        None => None,
    }
}

/// Saves what was measured of a device, and shows it.
pub fn calibrate_noise_floor<L: Copy>(
    app: &mut AppState<L>,
    device_id: Option<&str>,
    label: String,
    measurement: Measurement<L>,
) -> (r: CalibrationResult<L>)
    requires
        state::state_ok(*old(app)),
    ensures
        state::state_ok(*final(app)),
        r.device_id@ == devices::key_of(
            match device_id {
                Some(id) => Some(id@),
                None => None,
            },
            label@,
        ),
        r.updated_at_ms matches Some(now_ms) && state::prefers(
            *final(app),
            *old(app),
            state::with_calibration(
                old(app).onboarding@,
                r.device_id@,
                measured(
                    label@,
                    measurement,
                    is_in_strong_noise(old(app).onboarding@.calibrations, r.device_id@),
                ),
                dsp::window_ms(old(app).frame_window.mode),
                now_ms,
            ),
        ),
        shows(
            r,
            r.device_id@,
            final(app).onboarding@.calibrations[r.device_id@],
            dsp::window_ms(old(app).frame_window.mode),
        ),
        r.device_label@ == label@,
        r.applied_threshold == measurement.recommended_threshold,
        r.recommended_threshold == measurement.recommended_threshold,
{
    let (computation, _now_ms) = calibrate_device(app, device_id, label, measurement);
    get_device_calibration(app, computation.device_id.as_str()).unwrap()
}

/// A calibration that the user chose.
#[derive(Debug)]
pub struct PersistCalibrationRequest<L> {
    pub device_id: String,
    pub device_label: Option<String>,
    pub threshold: L,
    pub recommended_threshold: Option<L>,
    pub noise_floor_db: L,
    pub sample_window_ms: u32,
    pub frame_window_ms: Option<u32>,
    pub mode: String,
    pub noise_alert: bool,
    pub noise_hint: Option<String>,
    pub strong_noise_mode: bool,
}

/// The calibration that a request asks for.
pub open spec fn requested<L>(request: PersistCalibrationRequest<L>, mode: CalibrationMode) -> Calibration<
    L,
> {
    Calibration {
        threshold: request.threshold,
        noise_floor_db: request.noise_floor_db,
        sample_window_ms: request.sample_window_ms,
        device_label: text::opt_text(request.device_label),
        mode,
        recommended_threshold: request.recommended_threshold,
        updated_at_ms: None,
        noise_alert: request.noise_alert,
        noise_hint: text::opt_text(request.noise_hint),
        strong_noise_mode: request.strong_noise_mode,
        frame_window_ms: request.frame_window_ms,
    }
}

/// Saves the calibration that the user chose, unless its mode is unknown, and
/// shows it.
pub fn persist_calibration_preference<L: Copy>(
    app: &mut AppState<L>,
    request: PersistCalibrationRequest<L>,
) -> (r: Result<CalibrationResult<L>, String>)
    requires
        state::state_ok(*old(app)),
    ensures
        state::state_ok(*final(app)),
        match onboarding::named_mode(request.mode@) {
            Some(mode) => {
                &&& r matches Ok(shown)
                &&& shown.updated_at_ms matches Some(now_ms)
                &&& state::prefers(
                    *final(app),
                    *old(app),
                    state::with_calibration(
                        old(app).onboarding@,
                        request.device_id@,
                        requested(request, mode),
                        dsp::window_ms(old(app).frame_window.mode),
                        now_ms,
                    ),
                )
                &&& shows(
                    shown,
                    request.device_id@,
                    final(app).onboarding@.calibrations[request.device_id@],
                    dsp::window_ms(old(app).frame_window.mode),
                )
            },
            None => *final(app) == *old(app) && (r matches Err(message) && message@
                == "未知的校准模式: "@ + text::ascii_lower_text(request.mode@)),
        },
{
    let mode = match CalibrationMode::parse(request.mode.as_str()) {
        Ok(mode) => mode,
        Err(message) => {
            return Err(message);
        },
    };
    let saved = SavedCalibration {
        threshold: request.threshold,
        noise_floor_db: request.noise_floor_db,
        sample_window_ms: request.sample_window_ms,
        device_label: request.device_label,
        mode,
        recommended_threshold: request.recommended_threshold,
        updated_at_ms: None,
        noise_alert: request.noise_alert,
        noise_hint: request.noise_hint,
        strong_noise_mode: request.strong_noise_mode,
        frame_window_ms: request.frame_window_ms,
    };
    assert(saved@ == requested(request, mode));
    let window_ms: u32 = app.frame_window.mode.duration_ms();
    let _now_ms: u128 = app.save_calibration(request.device_id.as_str(), saved);
    let kept = app.onboarding.calibration(request.device_id.as_str()).unwrap();
    Ok(show_calibration(request.device_id.as_str(), kept, window_ms))
}

/// The phase after a calibration, given its numbers as text.
pub fn calibration_complete(noise_floor: &str, threshold: &str, frame_window_ms: u32) -> (r: Phase)
    ensures
        r.name@ == "CalibrationComplete"@,
        r.detail@ == "Noise floor "@ + noise_floor@ + " dB, recommended threshold "@ + threshold@
            + " | 帧窗口 "@ + text::decimal_text(frame_window_ms as nat) + "ms"@,
{
    let numbers = text::concat4(
        "Noise floor ",
        noise_floor,
        " dB, recommended threshold ",
        threshold,
    );
    let detail = text::concat4(
        numbers.as_str(),
        " | 帧窗口 ",
        text::decimal(frame_window_ms as u64).as_str(),
        "ms",
    );
    Phase { name: "CalibrationComplete".to_owned(), detail }
}

/// The phase after the user chose a calibration, given its threshold as text.
pub fn calibration_persisted(mode: CalibrationMode, threshold: &str) -> (r: Phase)
    ensures
        r.name@ == "CalibrationPersisted"@,
        r.detail@ == (match mode {
            CalibrationMode::Auto => "自动"@,
            CalibrationMode::Manual => "手动"@,
        }) + "模式阈值 "@ + threshold@,
{
    let label = match mode {
        CalibrationMode::Auto => "自动",
        CalibrationMode::Manual => "手动",
    };
    Phase {
        name: "CalibrationPersisted".to_owned(),
        detail: text::concat3(label, "模式阈值 ", threshold),
    }
}

/// The phase after a device test, given its numbers as text.
pub fn device_test_complete(snr: &str, peak: &str, frame_window_ms: u32) -> (r: Phase)
    ensures
        r.name@ == "DeviceTestComplete"@,
        r.detail@ == "SNR "@ + snr@ + " dB, peak "@ + peak@ + " dBFS | 帧窗口 "@
            + text::decimal_text(frame_window_ms as nat) + "ms"@,
{
    let numbers = text::concat4("SNR ", snr, " dB, peak ", peak);
    let detail = text::concat4(
        numbers.as_str(),
        " dBFS | 帧窗口 ",
        text::decimal(frame_window_ms as u64).as_str(),
        "ms",
    );
    Phase { name: "DeviceTestComplete".to_owned(), detail }
}

/// Strong noise suppression, once chosen for a device, outlasts a new
/// measurement of it.
pub proof fn law_strong_noise_mode_outlasts_measuring<L>(
    p: onboarding::Preferences<L>,
    device_id: Seq<char>,
    label: Seq<char>,
    m: Measurement<L>,
    window_ms: u32,
    now_ms: u128,
)
    ensures
        ({
            let before = is_in_strong_noise(p.calibrations, device_id);
            let after = state::with_calibration(
                p,
                device_id,
                measured(label, m, before),
                window_ms,
                now_ms,
            );
            is_in_strong_noise(after.calibrations, device_id) == before
        }),
{
}

/// A measurement is applied as it was recommended, without a time yet, and under
/// the name of its device; only strong noise suppression is taken from before.
pub proof fn law_measurement_is_applied<L>(label: Seq<char>, m: Measurement<L>, strong: bool)
    ensures
        ({
            let c = measured(label, m, strong);
            &&& c.threshold == m.recommended_threshold
            &&& c.recommended_threshold == Some(m.recommended_threshold)
            &&& c.noise_floor_db == m.noise_floor_db
            &&& c.mode == CalibrationMode::Auto
            &&& c.device_label == Some(label)
            &&& c.sample_window_ms == m.capture.duration_ms
            &&& c.frame_window_ms == Some(m.capture.frame_window_ms)
            &&& c.noise_alert == m.noise_alert
            &&& c.noise_hint == text::opt_text(m.noise_hint)
            &&& c.strong_noise_mode == strong
            &&& c.updated_at_ms is None
        }),
{
}

} // verus!
