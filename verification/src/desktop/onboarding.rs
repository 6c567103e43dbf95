//! What the program remembers about its user: permissions, the engine,
//! the microphone and how it was calibrated, and the tutorial.
use vstd::prelude::*;

use crate::desktop::crypto::{self, HotkeyBinding, HotkeyConfigEnvelope};
use crate::text;

verus! {

/// Who chose the threshold of a microphone.
#[derive(Debug, Clone, Copy, PartialEq, Eq, Structural)]
pub enum CalibrationMode {
    Auto,
    Manual,
}

impl Default for CalibrationMode {
    fn default() -> (r: Self)
        ensures
            r == CalibrationMode::Auto,
    {
        CalibrationMode::Auto
    }
}

/// The name of a mode.
pub open spec fn mode_name(mode: CalibrationMode) -> Seq<char> {
    match mode {
        CalibrationMode::Auto => "auto"@,
        CalibrationMode::Manual => "manual"@,
    }
}

/// The mode with a name, ASCII case aside.
pub open spec fn named_mode(name: Seq<char>) -> Option<CalibrationMode> {
    if text::ascii_lower_text(name) == mode_name(CalibrationMode::Auto) {
        Some(CalibrationMode::Auto)
    } else if text::ascii_lower_text(name) == mode_name(CalibrationMode::Manual) {
        Some(CalibrationMode::Manual)
    } else {
        None
    }
}

impl CalibrationMode {
    /// The name of the mode.
    pub fn as_str(&self) -> (r: &'static str)
        ensures
            r@ == mode_name(*self),
    {
        match self {
            CalibrationMode::Auto => "auto",
            CalibrationMode::Manual => "manual",
        }
    }

    /// The mode with a name, ASCII case aside.
    pub fn parse(name: &str) -> (r: Result<Self, String>)
        ensures
            match named_mode(name@) {
                Some(mode) => r == Ok::<Self, String>(mode),
                None => r matches Err(message) && message@ == "未知的校准模式: "@
                    + text::ascii_lower_text(name@),
            },
    {
        let lower = text::to_ascii_lower(&text::chars_of(name));
        if text::same_text(&lower, &text::chars_of("auto")) {
            return Ok(CalibrationMode::Auto);
        }
        if text::same_text(&lower, &text::chars_of("manual")) {
            return Ok(CalibrationMode::Manual);
        }
        Err(text::concat("未知的校准模式: ", text::string_of(&lower).as_str()))
    }
}

/// The name of a mode is read back as that mode.
pub proof fn law_mode_names_are_read_back(mode: CalibrationMode)
    ensures
        named_mode(mode_name(mode)) == Some(mode),
{
    reveal_strlit("auto");
    reveal_strlit("manual");
    assert(text::ascii_lower_text("auto"@) =~= "auto"@);
    assert(text::ascii_lower_text("manual"@) =~= "manual"@);
    assert("auto"@.len() != "manual"@.len());
}

/// How the microphone of a device was calibrated.
#[derive(Debug, Clone)]
pub struct SavedCalibration<L> {
    pub threshold: L,
    pub noise_floor_db: L,
    pub sample_window_ms: u32,
    pub device_label: Option<String>,
    pub mode: CalibrationMode,
    pub recommended_threshold: Option<L>,
    pub updated_at_ms: Option<u128>,
    pub noise_alert: bool,
    pub noise_hint: Option<String>,
    pub strong_noise_mode: bool,
    pub frame_window_ms: Option<u32>,
}

/// What a calibration says.
pub struct Calibration<L> {
    pub threshold: L,
    pub noise_floor_db: L,
    pub sample_window_ms: u32,
    pub device_label: Option<Seq<char>>,
    pub mode: CalibrationMode,
    pub recommended_threshold: Option<L>,
    pub updated_at_ms: Option<u128>,
    pub noise_alert: bool,
    pub noise_hint: Option<Seq<char>>,
    pub strong_noise_mode: bool,
    pub frame_window_ms: Option<u32>,
}

impl<L> View for SavedCalibration<L> {
    type V = Calibration<L>;

    open spec fn view(&self) -> Calibration<L> {
        Calibration {
            threshold: self.threshold,
            noise_floor_db: self.noise_floor_db,
            sample_window_ms: self.sample_window_ms,
            device_label: text::opt_text(self.device_label),
            mode: self.mode,
            recommended_threshold: self.recommended_threshold,
            updated_at_ms: self.updated_at_ms,
            noise_alert: self.noise_alert,
            noise_hint: text::opt_text(self.noise_hint),
            strong_noise_mode: self.strong_noise_mode,
            frame_window_ms: self.frame_window_ms,
        }
    }
}

impl<L: Copy> SavedCalibration<L> {
    /// A copy that says the same.
    pub fn copy(&self) -> (r: Self)
        ensures
            r@ == self@,
    {
        SavedCalibration {
            threshold: self.threshold,
            noise_floor_db: self.noise_floor_db,
            sample_window_ms: self.sample_window_ms,
            device_label: text::copy_opt(&self.device_label),
            mode: self.mode,
            recommended_threshold: self.recommended_threshold,
            updated_at_ms: self.updated_at_ms,
            noise_alert: self.noise_alert,
            noise_hint: text::copy_opt(&self.noise_hint),
            strong_noise_mode: self.strong_noise_mode,
            frame_window_ms: self.frame_window_ms,
        }
    }
}

/// A calibration with what it leaves open filled in: the recommended threshold
/// and the label from the calibration before, a manual threshold recommended
/// where there is no other, and the window now in use.
pub open spec fn completed<L>(
    given: Calibration<L>,
    existing: Option<Calibration<L>>,
    window_ms: u32,
    now_ms: u128,
) -> Calibration<L> {
    let inherited = match (given.recommended_threshold, existing) {
        (None, Some(before)) => match before.recommended_threshold {
            Some(recommended) => Some(recommended),
            None => Some(before.threshold),
        },
        (recommended, _) => recommended,
    };
    Calibration {
        recommended_threshold: if inherited is None && given.mode == CalibrationMode::Manual {
            Some(given.threshold)
        } else {
            inherited
        },
        device_label: match (given.device_label, existing) {
            (None, Some(before)) => before.device_label,
            (label, _) => label,
        },
        frame_window_ms: match given.frame_window_ms {
            Some(ms) => Some(ms),
            None => Some(window_ms),
        },
        updated_at_ms: Some(now_ms),
        ..given
    }
}

/// The permissions that were seen granted.
#[derive(Debug, Clone, Copy, PartialEq, Eq, Structural)]
pub struct PermissionTracker {
    pub microphone: bool,
    pub accessibility: bool,
}

impl Default for PermissionTracker {
    fn default() -> (r: Self)
        ensures
            !r.microphone,
            !r.accessibility,
    {
        PermissionTracker { microphone: false, accessibility: false }
    }
}

/// How the tutorial ended.
#[derive(Debug, Clone, Copy, PartialEq, Eq, Structural)]
pub enum TutorialStatus {
    Completed,
    Skipped,
}

impl TutorialStatus {
    /// The name of the status.
    pub fn as_str(&self) -> (r: &'static str)
        ensures
            r@ == match *self {
                TutorialStatus::Completed => "completed"@,
                TutorialStatus::Skipped => "skipped"@,
            },
    {
        match self {
            TutorialStatus::Completed => "completed",
            TutorialStatus::Skipped => "skipped",
        }
    }
}

/// The calibration of one device.
#[derive(Debug, Clone)]
pub struct DeviceCalibration<L> {
    pub device_id: String,
    pub calibration: SavedCalibration<L>,
}

/// What the program remembers about its user. No device has two calibrations.
#[derive(Debug, Clone)]
pub struct OnboardingPreferences<L> {
    pub engine_choice: Option<String>,
    pub calibrations: Vec<DeviceCalibration<L>>,
    pub tutorial_completed: bool,
    pub tutorial_status: Option<TutorialStatus>,
    pub permissions: PermissionTracker,
    pub selected_microphone: Option<String>,
}

/// What the preferences say.
pub struct Preferences<L> {
    pub engine_choice: Option<Seq<char>>,
    pub calibrations: Map<Seq<char>, Calibration<L>>,
    pub tutorial_completed: bool,
    pub tutorial_status: Option<TutorialStatus>,
    pub permissions: PermissionTracker,
    pub selected_microphone: Option<Seq<char>>,
}

/// Whether the entry at `i` is about a device.
pub open spec fn is_about<L>(entries: Seq<DeviceCalibration<L>>, device_id: Seq<char>, i: int) -> bool {
    0 <= i < entries.len() && entries[i].device_id@ == device_id
}

/// The calibrations of a list, by device.
pub open spec fn by_device<L>(entries: Seq<DeviceCalibration<L>>) -> Map<Seq<char>, Calibration<L>> {
    Map::new(
        |device_id: Seq<char>| exists|i: int| is_about(entries, device_id, i),
        |device_id: Seq<char>|
            entries[choose|i: int| is_about(entries, device_id, i)].calibration@,
    )
}

/// Whether no device has two entries.
pub open spec fn devices_distinct<L>(entries: Seq<DeviceCalibration<L>>) -> bool {
    forall|i: int, j: int|
        0 <= i < entries.len() && 0 <= j < entries.len() && #[trigger] entries[i].device_id@
            == #[trigger] entries[j].device_id@ ==> i == j
}

impl<L> View for OnboardingPreferences<L> {
    type V = Preferences<L>;

    open spec fn view(&self) -> Preferences<L> {
        Preferences {
            engine_choice: text::opt_text(self.engine_choice),
            calibrations: by_device(self.calibrations@),
            tutorial_completed: self.tutorial_completed,
            tutorial_status: self.tutorial_status,
            permissions: self.permissions,
            selected_microphone: text::opt_text(self.selected_microphone),
        }
    }
}

/// The preferences of a new user.
pub open spec fn no_preferences<L>() -> Preferences<L> {
    Preferences {
        engine_choice: None,
        calibrations: Map::empty(),
        tutorial_completed: false,
        tutorial_status: None,
        permissions: PermissionTracker { microphone: false, accessibility: false },
        selected_microphone: None,
    }
}

/// Whether the tutorial need not be shown again: it was finished or skipped.
/// Where only the older mark is stored, that decides.
pub open spec fn tutorial_is_over<L>(p: Preferences<L>) -> bool {
    p.tutorial_status is Some || p.tutorial_completed
}

impl<L> OnboardingPreferences<L> {
    /// The preferences of a new user.
    pub fn new() -> (r: Self)
        ensures
            devices_distinct(r.calibrations@),
            r@ == no_preferences::<L>(),
    {
        let r = OnboardingPreferences {
            engine_choice: None,
            calibrations: Vec::new(),
            tutorial_completed: false,
            tutorial_status: None,
            permissions: PermissionTracker { microphone: false, accessibility: false },
            selected_microphone: None,
        };
        assert(r@.calibrations =~= Map::empty());
        r
    }

    fn position(&self, device_id: &str) -> (r: Option<usize>)
        ensures
            match r {
                Some(i) => is_about(self.calibrations@, device_id@, i as int),
                None => forall|i: int| !#[trigger] is_about(self.calibrations@, device_id@, i),
            },
    {
        let wanted = text::chars_of(device_id);
        let mut i: usize = 0;
        while i < self.calibrations.len()
            invariant
                i <= self.calibrations@.len(),
                wanted@ == device_id@,
                forall|k: int|
                    0 <= k < i ==> !#[trigger] is_about(self.calibrations@, device_id@, k),
            decreases self.calibrations.len() - i,
        {
            let known = text::chars_of(self.calibrations[i].device_id.as_str());
            if text::same_text(&known, &wanted) {
                return Some(i);
            }
            i += 1;
        }
        None
    }

    /// The calibration of a device, if it has one.
    pub fn calibration(&self, device_id: &str) -> (r: Option<&SavedCalibration<L>>)
        requires
            devices_distinct(self.calibrations@),
        ensures
            match r {
                Some(calibration) => self@.calibrations.contains_key(device_id@)
                    && self@.calibrations[device_id@] == calibration@,
                None => !self@.calibrations.contains_key(device_id@),
            },
    {
        match self.position(device_id) {
            Some(i) => {
                let entry = &self.calibrations[i];
                proof {
                    let chosen = choose|k: int| is_about(self.calibrations@, device_id@, k);
                    assert(is_about(self.calibrations@, device_id@, chosen));
                    assert(chosen == i);
                }
                Some(&entry.calibration)
            },
            None => None,
        }
    }

    /// Sets the calibration of a device, in place of the one before.
    pub fn insert_calibration(&mut self, device_id: &str, calibration: SavedCalibration<L>)
        requires
            devices_distinct(old(self).calibrations@),
        ensures
            devices_distinct(final(self).calibrations@),
            final(self)@ == (Preferences {
                calibrations: old(self)@.calibrations.insert(device_id@, calibration@),
                ..old(self)@
            }),
    {
        let ghost before = self.calibrations@;
        let ghost view = calibration@;
        let place = self.position(device_id);
        let entry = DeviceCalibration { device_id: device_id.to_owned(), calibration };
        match place {
            Some(i) => {
                self.calibrations.set(i, entry);
            },
            None => {
                self.calibrations.push(entry);
            },
        }
        proof {
            let after = self.calibrations@;
            let at = match place {
                Some(i) => i as int,
                None => before.len() as int,
            };
            assert(is_about(after, device_id@, at));
            assert(forall|k: int| 0 <= k < before.len() && k != at ==> after[k] == #[trigger] before[k]);
            assert forall|i: int, j: int|
                0 <= i < after.len() && 0 <= j < after.len() && #[trigger] after[i].device_id@
                    == #[trigger] after[j].device_id@ implies i == j by {
                if i != at && j != at {
                    assert(before[i].device_id@ == before[j].device_id@);
                } else if i != j {
                    let other = if i == at {
                        j
                    } else {
                        i
                    };
                    assert(is_about(before, device_id@, other));
                    if place is Some {
                        assert(before[other].device_id@ == before[at].device_id@);
                    }
                }
            }
            assert forall|id: Seq<char>| by_device(after).contains_key(id) == (
            #[trigger] by_device(before).insert(device_id@, view)).contains_key(id) by {
                if exists|k: int| is_about(after, id, k) {
                    let k = choose|k: int| is_about(after, id, k);
                    if k != at {
                        assert(is_about(before, id, k));
                    }
                }
                if exists|k: int| is_about(before, id, k) {
                    let k = choose|k: int| is_about(before, id, k);
                    assert(is_about(after, id, k));
                }
            }
            assert forall|id: Seq<char>| by_device(after).contains_key(id) implies by_device(
                after,
            )[id] == #[trigger] by_device(before).insert(device_id@, view)[id] by {
                let k = choose|k: int| is_about(after, id, k);
                assert(is_about(after, id, k));
                if id == device_id@ {
                    assert(after[k].device_id@ == after[at].device_id@);
                } else {
                    assert(is_about(before, id, k));
                    let m = choose|m: int| is_about(before, id, m);
                    assert(is_about(before, id, m));
                    assert(before[k].device_id@ == before[m].device_id@);
                }
            }
            assert(by_device(after) =~= by_device(before).insert(device_id@, view));
        }
    }
}

impl<L> Default for OnboardingPreferences<L> {
    fn default() -> (r: Self)
        ensures
            devices_distinct(r.calibrations@),
            r@ == no_preferences::<L>(),
    {
        OnboardingPreferences::new()
    }
}

/// Whether `loaded` is what is made of `stored`: the stored preferences if their
/// signature is right, else those of a new user.
pub open spec fn is_loaded<L>(
    key: Seq<u8>,
    stored: Option<(OnboardingPreferences<L>, Vec<u8>, String)>,
    loaded: OnboardingPreferences<L>,
) -> bool {
    match stored {
        Some((preferences, serialized, signature)) => if crypto::signature_fault(
            key,
            serialized@,
            signature@,
        ) is None {
            loaded == preferences
        } else {
            loaded@ == no_preferences::<L>()
        },
        None => loaded@ == no_preferences::<L>(),
    }
}

/// Preferences that were stored are read back as they were: the signature that
/// is made of their text under a key is accepted under that key.
pub proof fn law_stored_preferences_are_read_back<L>(
    key: Seq<u8>,
    preferences: OnboardingPreferences<L>,
    serialized: Vec<u8>,
    signature: String,
    loaded: OnboardingPreferences<L>,
)
    requires
        crypto::can_sign(key, serialized@),
        crypto::is_signature(key, serialized@, signature@),
        is_loaded(key, Some((preferences, serialized, signature)), loaded),
    ensures
        loaded@ == preferences@,
        loaded@.permissions == preferences@.permissions,
        devices_distinct(preferences.calibrations@) ==> devices_distinct(loaded.calibrations@),
{
}

/// Stored preferences whose text was changed, or that were stored under another
/// key, give way to those of a new user unless the authentication code stayed
/// the same.
pub proof fn law_changed_preferences_are_refused<L>(
    key: Seq<u8>,
    serialized: Seq<u8>,
    other_key: Seq<u8>,
    stored: (OnboardingPreferences<L>, Vec<u8>, String),
    loaded: OnboardingPreferences<L>,
)
    requires
        crypto::is_signature(key, serialized, stored.2@),
        crypto::hmac_sha256(other_key, stored.1@) != crypto::hmac_sha256(key, serialized),
        is_loaded(other_key, Some(stored), loaded),
    ensures
        loaded@ == no_preferences::<L>(),
{
}

/// The preferences to start with: the stored ones if their signature is right,
/// else those of a new user. The stored ones come with the text that was signed
/// and the signature.
pub fn load_onboarding_preferences<L>(
    key: &[u8],
    stored: Option<(OnboardingPreferences<L>, Vec<u8>, String)>,
) -> (r: OnboardingPreferences<L>)
    ensures
        is_loaded(key@, stored, r),
        (stored matches Some(s) ==> devices_distinct(s.0.calibrations@)) ==> devices_distinct(
            r.calibrations@,
        ),
{
    match stored {
        Some((preferences, serialized, signature)) => {
            match crypto::verify_onboarding(key, &serialized, signature.as_str()) {
                Ok(_) => preferences,
                Err(_) => OnboardingPreferences::new(),
            }
        },
        None => OnboardingPreferences::new(),
    }
}

/// The hotkey of a stored envelope, if its signature is right.
pub open spec fn accepted_binding(key: Seq<u8>, envelope: HotkeyConfigEnvelope) -> Option<
    HotkeyBinding,
> {
    if crypto::signature_fault(
        key,
        crypto::payload_json(envelope.payload),
        envelope.signature@,
    ) is None {
        Some(
            HotkeyBinding {
                combination: envelope.payload.combination,
                source: envelope.payload.source,
                reason: envelope.payload.reason,
            },
        )
    } else {
        None
    }
}

/// The stored hotkey, if there is one and its signature is right.
pub fn load_hotkey_config(key: &[u8], stored: Option<HotkeyConfigEnvelope>) -> (r: Option<
    HotkeyBinding,
>)
    ensures
        r == match stored {
            Some(envelope) => accepted_binding(key@, envelope),
            None => None,
        },
{
    match stored {
        Some(envelope) => match crypto::verify_envelope(key, envelope) {
            Ok(binding) => Some(binding),
            Err(_) => None,
        },
        None => None,
    }
}

/// A mode is known by its name in whatever case, and by no other.
pub proof fn law_modes_are_known_by_name(name: Seq<char>)
    ensures
        mode_name(CalibrationMode::Auto) == "auto"@,
        mode_name(CalibrationMode::Manual) == "manual"@,
        named_mode(name) == Some(CalibrationMode::Auto) <==> text::ascii_lower_text(name)
            == "auto"@,
        named_mode(name) == Some(CalibrationMode::Manual) <==> text::ascii_lower_text(name)
            == "manual"@,
{
    reveal_strlit("auto");
    reveal_strlit("manual");
    assert("auto"@.len() != "manual"@.len());
}

/// What a calibration says is kept when it is saved; what it leaves open comes
/// from the calibration before, whose own threshold is recommended where it had
/// no recommendation. A manual threshold without anything before it recommends
/// itself, an automatic one nothing.
pub proof fn law_saving_fills_in_what_is_open<L>(
    given: Calibration<L>,
    before: Calibration<L>,
    window_ms: u32,
    now_ms: u128,
)
    ensures
        ({
            let alone = completed(given, None, window_ms, now_ms);
            let after = completed(given, Some(before), window_ms, now_ms);
            &&& given.recommended_threshold is Some ==> after.recommended_threshold
                == given.recommended_threshold && alone.recommended_threshold
                == given.recommended_threshold
            &&& given.recommended_threshold is None ==> after.recommended_threshold == (
            if before.recommended_threshold is Some {
                before.recommended_threshold
            } else {
                Some(before.threshold)
            })
            &&& given.recommended_threshold is None && given.mode == CalibrationMode::Manual
                ==> alone.recommended_threshold == Some(given.threshold)
            &&& given.recommended_threshold is None && given.mode == CalibrationMode::Auto
                ==> alone.recommended_threshold is None
            &&& given.device_label is Some ==> after.device_label == given.device_label
            &&& given.device_label is None ==> after.device_label == before.device_label
                && alone.device_label is None
            &&& given.frame_window_ms is Some ==> after.frame_window_ms == given.frame_window_ms
            &&& given.frame_window_ms is None ==> after.frame_window_ms == Some(window_ms)
            &&& after.updated_at_ms == Some(now_ms) && alone.updated_at_ms == Some(now_ms)
            &&& after.threshold == given.threshold && after.noise_floor_db == given.noise_floor_db
            &&& after.sample_window_ms == given.sample_window_ms && after.mode == given.mode
            &&& after.noise_alert == given.noise_alert && after.noise_hint == given.noise_hint
            &&& after.strong_noise_mode == given.strong_noise_mode
        }),
{
}

/// The tutorial is over exactly when it was finished or skipped.
pub proof fn law_tutorial_is_over_when_it_ended<L>(p: Preferences<L>)
    ensures
        tutorial_is_over(p) <==> p.tutorial_status == Some(TutorialStatus::Completed)
            || p.tutorial_status == Some(TutorialStatus::Skipped) || p.tutorial_completed,
        !tutorial_is_over(no_preferences::<L>()),
        !no_preferences::<L>().permissions.microphone,
        !no_preferences::<L>().permissions.accessibility,
        no_preferences::<L>().engine_choice is None,
        no_preferences::<L>().selected_microphone is None,
        no_preferences::<L>().calibrations == Map::<Seq<char>, Calibration<L>>::empty(),
{
    match p.tutorial_status {
        Some(TutorialStatus::Completed) => {},
        Some(TutorialStatus::Skipped) => {},
        None => {},
    }
}

} // verus!
