//! The state of the running program.
use vstd::prelude::*;

use crate::clock::current_timestamp_ms;
use crate::desktop::crypto::{self, HotkeyBinding, HotkeyConfigEnvelope, HotkeyConfigPayload};
use crate::desktop::dsp::{self, FrameWindowSetting};
use crate::desktop::hotkey::HotkeyState;
use crate::desktop::onboarding::{
    self, Calibration, OnboardingPreferences, PermissionTracker, Preferences, SavedCalibration,
    TutorialStatus,
};
use crate::desktop::samples::{self, AudioCacheKeys, OpenFault, SampleEnvelope};
use crate::desktop::session::{self, SessionStateManager};
use crate::text;

verus! {

/// The length of window in use, and why it was chosen.
#[derive(Debug)]
pub struct FrameWindowState {
    pub mode: FrameWindowSetting,
    pub last_reason: Option<String>,
}

/// The state of the running program.
pub struct AppState<L> {
    pub session: SessionStateManager<L>,
    pub hotkey: HotkeyState,
    pub hmac_key: Vec<u8>,
    pub audio_keys: AudioCacheKeys,
    pub onboarding: OnboardingPreferences<L>,
    pub frame_window: FrameWindowState,
}

/// What holds of the state at all times: the histories stay within their
/// limits, no device has two calibrations, and the keys for recordings are
/// those that the secret gives.
pub open spec fn state_ok<L>(state: AppState<L>) -> bool {
    &&& session::histories_bounded(state.session@)
    &&& onboarding::devices_distinct(state.onboarding.calibrations@)
    &&& (state.audio_keys.encryption@, state.audio_keys.hmac@) == samples::derived_keys(
        state.hmac_key@,
    )
}

/// Whether `after` is `before` with only the preferences changed, to these.
pub open spec fn prefers<L>(after: AppState<L>, before: AppState<L>, preferences: Preferences<L>) -> bool {
    &&& after == (AppState { onboarding: after.onboarding, ..before })
    &&& after.onboarding@ == preferences
}

/// The preferences with a permission noted, if there is one of that name.
pub open spec fn with_permission<L>(p: Preferences<L>, key: Seq<char>, granted: bool) -> Option<
    Preferences<L>,
> {
    if key == "microphone"@ {
        Some(
            Preferences {
                permissions: PermissionTracker { microphone: granted, ..p.permissions },
                ..p
            },
        )
    } else if key == "accessibility"@ {
        Some(
            Preferences {
                permissions: PermissionTracker { accessibility: granted, ..p.permissions },
                ..p
            },
        )
    } else {
        None
    }
}

/// The preferences with a calibration saved.
pub open spec fn with_calibration<L>(
    p: Preferences<L>,
    device_id: Seq<char>,
    given: Calibration<L>,
    window_ms: u32,
    now_ms: u128,
) -> Preferences<L> {
    let existing = if p.calibrations.contains_key(device_id) {
        Some(p.calibrations[device_id])
    } else {
        None
    };
    Preferences {
        calibrations: p.calibrations.insert(
            device_id,
            onboarding::completed(given, existing, window_ms, now_ms),
        ),
        ..p
    }
}

/// The preferences with the end of the tutorial noted.
pub open spec fn with_tutorial<L>(p: Preferences<L>, outcome: TutorialStatus) -> Preferences<L> {
    Preferences {
        tutorial_status: Some(outcome),
        tutorial_completed: outcome == TutorialStatus::Completed,
        ..p
    }
}

impl<L: Copy> AppState<L> {
    /// The state at the start, with the secret that signs what is stored.
    pub fn new(
        hmac_key: Vec<u8>,
        binding: HotkeyBinding,
        onboarding: OnboardingPreferences<L>,
    ) -> (r: Self)
        requires
            32 <= hmac_key@.len() <= crypto::HASH_LIMIT,
            onboarding::devices_distinct(onboarding.calibrations@),
        ensures
            state_ok(r),
            session::is_fresh(r.session@),
            r.hmac_key == hmac_key,
            r.hotkey.binding == binding,
            r.hotkey.last_probe is None,
            r.onboarding == onboarding,
            r.frame_window.mode == FrameWindowSetting::Default,
            r.frame_window.last_reason is None,
    {
        let audio_keys = samples::derive_audio_cache_keys(&hmac_key).unwrap();
        AppState {
            session: SessionStateManager::new(),
            hotkey: HotkeyState { binding, last_probe: None },
            hmac_key,
            audio_keys,
            onboarding,
            frame_window: FrameWindowState {
                mode: FrameWindowSetting::Default,
                last_reason: None,
            },
        }
    }

    /// The secret that signs what is stored.
    pub fn hmac_key(&self) -> (r: &Vec<u8>)
        ensures
            *r == self.hmac_key,
    {
        &self.hmac_key
    }

    /// A hotkey, signed for storage. It is accepted when it is read back.
    pub fn persist_binding(&self, binding: &HotkeyBinding) -> (r: Result<
        HotkeyConfigEnvelope,
        String,
    >)
        ensures
            r matches Ok(envelope) ==> is_stored_form(self.hmac_key@, *binding, envelope),
            r is Ok <==> crypto::can_sign(
                self.hmac_key@,
                crypto::payload_json(stored_form(*binding)),
            ),
    {
        let payload = HotkeyConfigPayload {
            combination: binding.combination.clone(),
            source: binding.source,
            reason: text::copy_opt(&binding.reason),
        };
        assert(crypto::payload_json(payload) == crypto::payload_json(stored_form(*binding)));
        match crypto::sign_payload(&self.hmac_key, &payload) {
            Ok(signature) => Ok(HotkeyConfigEnvelope { payload, signature }),
            Err(error) => Err(error),
        }
    }

    /// The window in use.
    pub fn frame_window_mode(&self) -> (r: FrameWindowSetting)
        ensures
            r == self.frame_window.mode,
    {
        self.frame_window.mode
    }

    /// Chooses a window, for a reason.
    pub fn set_frame_window(&mut self, mode: FrameWindowSetting, reason: Option<String>) -> (r:
        FrameWindowSetting)
        ensures
            r == mode,
            *final(self) == (AppState {
                frame_window: FrameWindowState { mode, last_reason: reason },
                ..*old(self)
            }),
    {
        self.frame_window = FrameWindowState { mode, last_reason: reason };
        mode
    }

    /// Why the window in use was chosen.
    pub fn frame_window_reason(&self) -> (r: Option<String>)
        ensures
            text::opt_text(r) == text::opt_text(self.frame_window.last_reason),
    {
        text::copy_opt(&self.frame_window.last_reason)
    }

    /// Notes the engine that the user chose.
    pub fn update_engine_choice(&mut self, choice: &str)
        requires
            state_ok(*old(self)),
        ensures
            state_ok(*final(self)),
            prefers(
                *final(self),
                *old(self),
                (Preferences { engine_choice: Some(choice@), ..old(self).onboarding@ }),
            ),
    {
        self.onboarding.engine_choice = Some(choice.to_owned());
    }

    /// The engine that the user chose.
    pub fn engine_choice(&self) -> (r: Option<String>)
        ensures
            text::opt_text(r) == self.onboarding@.engine_choice,
    {
        text::copy_opt(&self.onboarding.engine_choice)
    }

    /// Notes whether a permission was seen granted.
    pub fn update_permission_status(&mut self, key: &str, granted: bool) -> (r: Result<(), String>)
        requires
            state_ok(*old(self)),
        ensures
            state_ok(*final(self)),
            match with_permission(old(self).onboarding@, key@, granted) {
                Some(preferences) => r is Ok && prefers(*final(self), *old(self), preferences),
                None => *final(self) == *old(self) && (r matches Err(message) && message@
                    == "unknown permission key: "@ + key@),
            },
    {
        let name = text::chars_of(key);
        if text::same_text(&name, &text::chars_of("microphone")) {
            self.onboarding.permissions.microphone = granted;
        } else if text::same_text(&name, &text::chars_of("accessibility")) {
            self.onboarding.permissions.accessibility = granted;
        } else {
            return Err(text::concat("unknown permission key: ", key));
        }
        Ok(())
    }

    /// The permissions that were seen granted.
    pub fn permission_status(&self) -> (r: PermissionTracker)
        ensures
            r == self.onboarding@.permissions,
    {
        self.onboarding.permissions
    }

    /// Saves the calibration of a device, now.
    pub fn save_calibration(&mut self, device_id: &str, calibration: SavedCalibration<L>) -> (r:
        u128)
        requires
            state_ok(*old(self)),
        ensures
            state_ok(*final(self)),
            prefers(
                *final(self),
                *old(self),
                with_calibration(
                    old(self).onboarding@,
                    device_id@,
                    calibration@,
                    dsp::window_ms(old(self).frame_window.mode),
                    r,
                ),
            ),
    {
        let now_ms: u128 = current_timestamp_ms();
        self.save_calibration_at(device_id, calibration, now_ms);
        now_ms
    }

    /// Saves the calibration of a device, at a time.
    pub fn save_calibration_at(
        &mut self,
        device_id: &str,
        calibration: SavedCalibration<L>,
        now_ms: u128,
    )
        requires
            state_ok(*old(self)),
        ensures
            state_ok(*final(self)),
            prefers(
                *final(self),
                *old(self),
                with_calibration(
                    old(self).onboarding@,
                    device_id@,
                    calibration@,
                    dsp::window_ms(old(self).frame_window.mode),
                    now_ms,
                ),
            ),
    {
        let mut updated = calibration;
        if let Some(existing) = self.onboarding.calibration(device_id) {
            if updated.recommended_threshold.is_none() {
                updated.recommended_threshold = match existing.recommended_threshold {
                    Some(recommended) => Some(recommended),
                    None => Some(existing.threshold),
                };
            }
            if updated.device_label.is_none() {
                updated.device_label = text::copy_opt(&existing.device_label);
            }
        }
        if updated.recommended_threshold.is_none() {
            match updated.mode {
                onboarding::CalibrationMode::Manual => {
                    updated.recommended_threshold = Some(updated.threshold);
                },
                onboarding::CalibrationMode::Auto => {},
            }
        }
        if updated.frame_window_ms.is_none() {
            updated.frame_window_ms = Some(self.frame_window.mode.duration_ms());
        }
        updated.updated_at_ms = Some(now_ms);
        self.onboarding.insert_calibration(device_id, updated);
    }

    /// The calibration of a device, if it has one.
    pub fn calibration_for(&self, device_id: &str) -> (r: Option<SavedCalibration<L>>)
        requires
            state_ok(*self),
        ensures
            match r {
                Some(calibration) => self.onboarding@.calibrations.contains_key(device_id@)
                    && self.onboarding@.calibrations[device_id@] == calibration@,
                None => !self.onboarding@.calibrations.contains_key(device_id@),
            },
    {
        match self.onboarding.calibration(device_id) {
            Some(calibration) => Some(calibration.copy()),
            None => None,
        }
    }

    fn mark_tutorial_outcome(&mut self, outcome: TutorialStatus)
        requires
            state_ok(*old(self)),
        ensures
            state_ok(*final(self)),
            prefers(*final(self), *old(self), with_tutorial(old(self).onboarding@, outcome)),
    {
        self.onboarding.tutorial_status = Some(outcome);
        self.onboarding.tutorial_completed = match outcome {
            TutorialStatus::Completed => true,
            TutorialStatus::Skipped => false,
        };
    }

    /// Notes that the tutorial was finished.
    pub fn mark_tutorial_complete(&mut self)
        requires
            state_ok(*old(self)),
        ensures
            state_ok(*final(self)),
            prefers(
                *final(self),
                *old(self),
                with_tutorial(old(self).onboarding@, TutorialStatus::Completed),
            ),
    {
        self.mark_tutorial_outcome(TutorialStatus::Completed)
    }

    /// Notes that the tutorial was skipped.
    pub fn mark_tutorial_skipped(&mut self)
        requires
            state_ok(*old(self)),
        ensures
            state_ok(*final(self)),
            prefers(
                *final(self),
                *old(self),
                with_tutorial(old(self).onboarding@, TutorialStatus::Skipped),
            ),
    {
        self.mark_tutorial_outcome(TutorialStatus::Skipped)
    }

    /// Whether the tutorial need not be shown again.
    pub fn tutorial_completed(&self) -> (r: bool)
        ensures
            r == onboarding::tutorial_is_over(self.onboarding@),
    {
        match self.onboarding.tutorial_status {
            Some(_) => true,
            None => self.onboarding.tutorial_completed,
        }
    }

    /// How the tutorial ended, if it did.
    pub fn tutorial_status(&self) -> (r: Option<TutorialStatus>)
        ensures
            r == self.onboarding@.tutorial_status,
    {
        self.onboarding.tutorial_status
    }

    /// The microphone that the user chose.
    pub fn selected_microphone(&self) -> (r: Option<String>)
        ensures
            text::opt_text(r) == self.onboarding@.selected_microphone,
    {
        text::copy_opt(&self.onboarding.selected_microphone)
    }

    /// Notes the microphone that the user chose, or that none is chosen.
    pub fn persist_selected_microphone(&mut self, device_id: Option<String>)
        requires
            state_ok(*old(self)),
        ensures
            state_ok(*final(self)),
            prefers(
                *final(self),
                *old(self),
                (Preferences {
                    selected_microphone: text::opt_text(device_id),
                    ..old(self).onboarding@
                }),
            ),
    {
        self.onboarding.selected_microphone = device_id;
    }

    /// A recording, sealed for storage, and the name of the file for it. It can
    /// be opened again. Whether a nonce can be had is up to the operating system.
    pub fn store_device_sample(&self, token: &str, wav_bytes: &[u8]) -> (r: Result<
        (String, SampleEnvelope),
        String,
    >)
        requires
            wav_bytes@.len() + 16 <= usize::MAX / 8 * 3,
        ensures
            token@.len() == 0 ==> (r matches Err(message) && message@
                == "sample token cannot be empty"@),
            token@.len() > 0 ==> (r matches Err(message) ==> exists|error: Seq<char>|
                message@ == "failed to encrypt device sample: "@ + error
                    && #[trigger] samples::is_seal_error(error, wav_bytes@)),
            wav_bytes@.len() > crypto::SEAL_LIMIT ==> r is Err,
            r matches Ok((name, envelope)) ==> {
                &&& token@.len() > 0
                &&& name@ == samples::envelope_name(token@)
                &&& exists|nonce: Seq<u8>|
                    nonce.len() == 12 && #[trigger] samples::is_sealed(
                        self.audio_keys,
                        nonce,
                        wav_bytes@,
                        envelope,
                    )
                &&& samples::opened(self.audio_keys, envelope) == Ok::<Seq<u8>, OpenFault>(
                    wav_bytes@,
                )
            },
    {
        let name = samples::sample_envelope_name(token)?;
        match samples::seal_sample_payload(&self.audio_keys, wav_bytes) {
            Ok(envelope) => Ok((name, envelope)),
            Err(error) => Err(text::concat("failed to encrypt device sample: ", error.as_str())),
        }
    }

    /// The recording in a sealed envelope, if it was sealed with these keys and
    /// not changed.
    pub fn load_device_sample(&self, envelope: &SampleEnvelope) -> (r: Result<Vec<u8>, String>)
        ensures
            match samples::opened(self.audio_keys, *envelope) {
                Ok(sample) => r matches Ok(bytes) && bytes@ == sample,
                Err(fault) => r matches Err(message) && message@
                    == "failed to decrypt device sample: "@ + samples::fault_message(fault),
            },
    {
        match samples::open_sample_payload(&self.audio_keys, envelope) {
            Ok(sample) => Ok(sample),
            Err(error) => Err(text::concat("failed to decrypt device sample: ", error.as_str())),
        }
    }
}

/// The stored form of a hotkey.
pub open spec fn stored_form(binding: HotkeyBinding) -> HotkeyConfigPayload {
    HotkeyConfigPayload {
        combination: binding.combination,
        source: binding.source,
        reason: binding.reason,
    }
}

/// Whether a stored form is that of a hotkey.
pub open spec fn stores(payload: HotkeyConfigPayload, binding: HotkeyBinding) -> bool {
    &&& payload.combination@ == binding.combination@
    &&& payload.source == binding.source
    &&& text::opt_text(payload.reason) == text::opt_text(binding.reason)
}

/// Whether an envelope holds a hotkey under its right signature.
pub open spec fn is_stored_form(
    key: Seq<u8>,
    binding: HotkeyBinding,
    envelope: HotkeyConfigEnvelope,
) -> bool {
    &&& stores(envelope.payload, binding)
    &&& crypto::is_signature(key, crypto::payload_json(envelope.payload), envelope.signature@)
    &&& crypto::signature_fault(
        key,
        crypto::payload_json(envelope.payload),
        envelope.signature@,
    ) is None
}

/// A hotkey that was stored is read back as it was.
pub proof fn law_stored_hotkey_is_read_back(
    key: Seq<u8>,
    binding: HotkeyBinding,
    envelope: HotkeyConfigEnvelope,
)
    requires
        is_stored_form(key, binding, envelope),
    ensures
        onboarding::accepted_binding(key, envelope) matches Some(loaded) && loaded.combination@
            == binding.combination@ && loaded.source == binding.source && text::opt_text(
            loaded.reason,
        ) == text::opt_text(binding.reason),
{
}

/// A stored hotkey that was changed is read back only if its new text has the
/// same authentication code as the signed one.
pub proof fn law_changed_hotkey_is_refused(
    key: Seq<u8>,
    binding: HotkeyBinding,
    envelope: HotkeyConfigEnvelope,
    changed: HotkeyConfigPayload,
)
    requires
        is_stored_form(key, binding, envelope),
        crypto::hmac_sha256(key, crypto::payload_json(changed)) != crypto::hmac_sha256(
            key,
            crypto::payload_json(envelope.payload),
        ),
    ensures
        onboarding::accepted_binding(
            key,
            HotkeyConfigEnvelope { payload: changed, signature: envelope.signature },
        ) is None,
{
}

/// A hotkey that was signed is accepted under the same key, whatever key and
/// hotkey: the envelope of `payload` with the signature that is made of it gives
/// the hotkey of `payload`.
pub proof fn law_signed_hotkey_is_accepted(key: Seq<u8>, envelope: HotkeyConfigEnvelope)
    requires
        crypto::can_sign(key, crypto::payload_json(envelope.payload)),
        crypto::is_signature(key, crypto::payload_json(envelope.payload), envelope.signature@),
    ensures
        onboarding::accepted_binding(key, envelope) == Some(
            HotkeyBinding {
                combination: envelope.payload.combination,
                source: envelope.payload.source,
                reason: envelope.payload.reason,
            },
        ),
{
}

/// A recording that was sealed is opened again by every later state with the
/// same secret.
pub proof fn law_stored_sample_is_read_back<L>(
    writer: AppState<L>,
    reader: AppState<L>,
    envelope: SampleEnvelope,
    sample: Seq<u8>,
)
    requires
        state_ok(writer),
        state_ok(reader),
        writer.hmac_key@ == reader.hmac_key@,
        samples::opened(writer.audio_keys, envelope) == Ok::<Seq<u8>, OpenFault>(sample),
    ensures
        samples::opened(reader.audio_keys, envelope) == Ok::<Seq<u8>, OpenFault>(sample),
{
}

/// A permission that was noted and stored is still known after a restart: a new
/// state whose preferences were loaded under the same secret tells the same of
/// both permissions.
pub proof fn law_noted_permission_outlasts_a_restart<L>(
    before: AppState<L>,
    key: Seq<char>,
    granted: bool,
    after: AppState<L>,
    serialized: Vec<u8>,
    signature: String,
    restarted: AppState<L>,
)
    requires
        with_permission(before.onboarding@, key, granted) matches Some(noted) && prefers(
            after,
            before,
            noted,
        ),
        crypto::can_sign(after.hmac_key@, serialized@),
        crypto::is_signature(after.hmac_key@, serialized@, signature@),
        onboarding::is_loaded(
            restarted.hmac_key@,
            Some((after.onboarding, serialized, signature)),
            restarted.onboarding,
        ),
        restarted.hmac_key@ == after.hmac_key@,
    ensures
        restarted.onboarding@.permissions == after.onboarding@.permissions,
        restarted.onboarding@.permissions == if key == "microphone"@ {
            PermissionTracker { microphone: granted, ..before.onboarding@.permissions }
        } else {
            PermissionTracker { accessibility: granted, ..before.onboarding@.permissions }
        },
{
}

/// A saved calibration is found under its device and leaves the others alone. It
/// always carries its time and its window, and a manual one a recommendation.
pub proof fn law_saved_calibration_is_found<L>(
    p: Preferences<L>,
    device_id: Seq<char>,
    other: Seq<char>,
    given: Calibration<L>,
    window_ms: u32,
    now_ms: u128,
)
    ensures
        ({
            let after = with_calibration(p, device_id, given, window_ms, now_ms);
            let saved = after.calibrations[device_id];
            &&& after.calibrations.contains_key(device_id)
            &&& saved.threshold == given.threshold
            &&& saved.mode == given.mode
            &&& saved.updated_at_ms == Some(now_ms)
            &&& saved.frame_window_ms is Some
            &&& given.mode == onboarding::CalibrationMode::Manual
                ==> saved.recommended_threshold is Some
            &&& other != device_id ==> after.calibrations.contains_key(other)
                == p.calibrations.contains_key(other) && (p.calibrations.contains_key(other)
                ==> after.calibrations[other] == p.calibrations[other])
        }),
{
}

/// A recommendation, once there, is not lost by saving a calibration that has
/// none, and neither is the label of the device.
pub proof fn law_recommendation_outlasts_saving<L>(
    p: Preferences<L>,
    device_id: Seq<char>,
    given: Calibration<L>,
    window_ms: u32,
    now_ms: u128,
)
    requires
        p.calibrations.contains_key(device_id),
        p.calibrations[device_id].recommended_threshold is Some,
        given.recommended_threshold is None,
        given.device_label is None,
    ensures
        ({
            let saved = with_calibration(
                p,
                device_id,
                given,
                window_ms,
                now_ms,
            ).calibrations[device_id];
            &&& saved.recommended_threshold == p.calibrations[device_id].recommended_threshold
            &&& saved.device_label == p.calibrations[device_id].device_label
        }),
{
}

/// However the tutorial ended, it is not shown again, and only one that was
/// finished counts as finished.
pub proof fn law_tutorial_is_over_after_either_end<L>(p: Preferences<L>, outcome: TutorialStatus)
    ensures
        onboarding::tutorial_is_over(with_tutorial(p, outcome)),
        with_tutorial(p, outcome).tutorial_status == Some(outcome),
        with_tutorial(p, outcome).tutorial_completed <==> outcome == TutorialStatus::Completed,
{
}

/// A permission is noted only under its own name, and noting one leaves the
/// other alone.
pub proof fn law_permissions_are_separate<L>(p: Preferences<L>, granted: bool)
    ensures
        with_permission(p, "microphone"@, granted) matches Some(q) && q.permissions.microphone
            == granted && q.permissions.accessibility == p.permissions.accessibility,
        with_permission(p, "accessibility"@, granted) matches Some(q) && q.permissions.accessibility
            == granted && q.permissions.microphone == p.permissions.microphone,
{
    reveal_strlit("microphone");
    reveal_strlit("accessibility");
    assert("microphone"@.len() != "accessibility"@.len());
}

} // verus!
