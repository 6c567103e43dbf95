//! What the desktop shell knows of the running session, and the events it
//! passes on to the user interface.
use vstd::prelude::*;
use vstd::std_specs::convert::FromSpecImpl;

use crate::audio::noise;
use crate::{bounded, clock, text};

verus! {

pub const TRANSCRIPT_EVENT_CHANNEL: &'static str = "session://transcript";

pub const LIFECYCLE_EVENT_CHANNEL: &'static str = "session://lifecycle";

pub const PUBLISH_RESULT_CHANNEL: &'static str = "session://publish-result";

pub const PUBLISH_NOTICE_CHANNEL: &'static str = "session://publish-notice";

pub const SESSION_EVENT_CHANNEL: &'static str = "session://event";

pub const SESSION_STATE_CHANNEL: &'static str = "session://state";

pub const MAX_TIMELINE: usize = 50;

pub const MAX_TRANSCRIPT_HISTORY: usize = 120;

pub const MAX_COMPLETION_HISTORY: usize = 120;

pub const MAX_SESSION_EVENT_HISTORY: usize = 120;

/// The pause between the priming and the pre-roll phase.
pub const PREROLL_PAUSE_MS: u64 = 120;

/// What the core reports of the running session.
#[derive(Debug, Clone)]
pub enum CoreSessionEvent<L> {
    NoiseWarning(CoreSessionNoiseWarning<L>),
    SilenceCountdown(CoreSessionSilenceCountdown),
    AutoStop(CoreSessionAutoStop),
}

#[derive(Debug, Clone)]
pub struct CoreSessionNoiseWarning<L> {
    pub baseline_db: L,
    pub threshold_db: L,
    pub level_db: L,
    pub persistence_ms: u32,
}

#[derive(Debug, Clone, Copy, PartialEq, Eq, Structural)]
pub struct CoreSessionSilenceCountdown {
    pub total_ms: u32,
    pub remaining_ms: u32,
    pub state: CoreSilenceCountdownState,
    pub cancel_reason: Option<CoreSilenceCancellationReason>,
}

#[derive(Debug, Clone, Copy, PartialEq, Eq, Structural)]
pub struct CoreSessionAutoStop {
    pub reason: CoreAutoStopReason,
}

#[derive(Debug, Clone, Copy, PartialEq, Eq, Structural)]
pub enum CoreSilenceCountdownState {
    Started,
    Tick,
    Canceled,
    Completed,
}

#[derive(Debug, Clone, Copy, PartialEq, Eq, Structural)]
pub enum CoreSilenceCancellationReason {
    SpeechDetected,
    ManualStop,
}

#[derive(Debug, Clone, Copy, PartialEq, Eq, Structural)]
pub enum CoreAutoStopReason {
    SilenceTimeout,
}

#[derive(Debug, Clone)]
pub struct SessionStatus {
    pub phase: String,
    pub detail: String,
    pub timestamp_ms: u128,
}

impl SessionStatus {
    /// A phase that begins now.
    pub fn new(phase: String, detail: String) -> (r: Self)
        ensures
            r.phase == phase,
            r.detail == detail,
    {
        SessionStatus { phase, detail, timestamp_ms: clock::current_timestamp_ms() }
    }

    /// A copy of the status.
    pub fn copy(&self) -> (r: Self)
        ensures
            r.phase@ == self.phase@,
            r.detail@ == self.detail@,
            r.timestamp_ms == self.timestamp_ms,
    {
        SessionStatus {
            phase: self.phase.clone(),
            detail: self.detail.clone(),
            timestamp_ms: self.timestamp_ms,
        }
    }
}

impl Default for SessionStatus {
    fn default() -> (r: Self)
        ensures
            r.phase@ == "Idle"@,
            r.detail@ == "Core service bridge not connected — awaiting initialization"@,
    {
        Self::new(
            "Idle".to_owned(),
            "Core service bridge not connected — awaiting initialization".to_owned(),
        )
    }
}

#[derive(Debug, Clone, Copy, PartialEq, Eq, Structural)]
pub enum TranscriptSourceVariant {
    Raw,
    Polished,
}

#[derive(Debug, Clone, Copy, PartialEq, Eq, Structural)]
pub enum TranscriptStreamSource {
    Local,
    Cloud,
    Polished,
}

#[derive(Debug, Clone, Copy, PartialEq, Eq, Structural)]
pub enum TranscriptNoticeLevel {
    Info,
    Warn,
    Error,
}

#[derive(Debug, Clone, PartialEq, Eq)]
pub struct TranscriptSentence {
    pub sentence_id: u64,
    pub text: String,
    pub source: TranscriptStreamSource,
    pub is_primary: bool,
    pub within_sla: bool,
}

#[derive(Debug, Clone, Copy, PartialEq, Eq, Structural)]
pub struct TranscriptSentenceSelection {
    pub sentence_id: u64,
    pub active_variant: TranscriptSourceVariant,
}

#[derive(Debug, Clone)]
pub struct TranscriptNotice {
    pub level: TranscriptNoticeLevel,
    pub message: String,
}

#[derive(Debug, Clone)]
pub enum TranscriptStreamPayload {
    Transcript { sentence: TranscriptSentence },
    Notice { notice: TranscriptNotice },
    Selection { selections: Vec<TranscriptSentenceSelection> },
}

#[derive(Debug, Clone)]
pub struct TranscriptStreamEvent {
    pub timestamp_ms: u128,
    pub frame_index: u64,
    pub latency_ms: u64,
    pub is_first: bool,
    pub payload: TranscriptStreamPayload,
}

impl TranscriptStreamEvent {
    /// An event that happens now.
    pub fn new(
        frame_index: u64,
        latency_ms: u64,
        is_first: bool,
        payload: TranscriptStreamPayload,
    ) -> (r: Self)
        ensures
            r.frame_index == frame_index,
            r.latency_ms == latency_ms,
            r.is_first == is_first,
            r.payload == payload,
    {
        TranscriptStreamEvent {
            timestamp_ms: clock::current_timestamp_ms(),
            frame_index,
            latency_ms,
            is_first,
            payload,
        }
    }

    /// The event that tells of selections, if there are any.
    pub fn of_selections(selections: Vec<TranscriptSentenceSelection>) -> (r: Option<Self>)
        ensures
            r is Some <==> selections@.len() > 0,
            r matches Some(event) ==> event.frame_index == 0 && event.latency_ms == 0
                && !event.is_first && event.payload == (TranscriptStreamPayload::Selection {
                selections,
            }),
    {
        if selections.is_empty() {
            return None;
        }
        Some(Self::new(0, 0, false, TranscriptStreamPayload::Selection { selections }))
    }
}

#[derive(Debug, Clone, Copy, PartialEq, Eq, Structural)]
pub enum SessionSilenceCountdownState {
    Started,
    Tick,
    Canceled,
    Completed,
}

#[derive(Debug, Clone, Copy, PartialEq, Eq, Structural)]
pub enum SessionSilenceCancellationReason {
    SpeechDetected,
    ManualStop,
}

#[derive(Debug, Clone, Copy, PartialEq, Eq, Structural)]
pub enum SessionAutoStopReason {
    SilenceTimeout,
}

/// An event of the running session, with levels of type `L`.
#[derive(Debug, Clone)]
pub enum SessionRealtimeEvent<L> {
    NoiseWarning {
        timestamp_ms: u128,
        baseline_db: L,
        threshold_db: L,
        level_db: L,
        persistence_ms: u32,
    },
    SilenceCountdown {
        timestamp_ms: u128,
        total_ms: u32,
        remaining_ms: u32,
        state: SessionSilenceCountdownState,
        cancel_reason: Option<SessionSilenceCancellationReason>,
    },
    AutoStop { timestamp_ms: u128, reason: SessionAutoStopReason },
}

/// Why a countdown makes no sense, if it does not.
pub open spec fn countdown_fault(
    total_ms: u32,
    remaining_ms: u32,
    state: SessionSilenceCountdownState,
    cancel_reason: Option<SessionSilenceCancellationReason>,
) -> Option<Seq<char>> {
    if total_ms == 0 {
        Some("silence countdown total must be positive"@)
    } else if remaining_ms > total_ms {
        Some("silence countdown remaining exceeds total"@)
    } else if state == SessionSilenceCountdownState::Completed && remaining_ms != 0 {
        Some("completed silence countdown must report 0 remaining"@)
    } else if state == SessionSilenceCountdownState::Canceled && cancel_reason is None {
        Some("canceled silence countdown must include a reason"@)
    } else if state != SessionSilenceCountdownState::Canceled && cancel_reason is Some {
        Some("silence countdown cancel reason only allowed when state is canceled"@)
    } else {
        None
    }
}

/// Why an event makes no sense, if it does not.
pub open spec fn event_fault<L>(event: SessionRealtimeEvent<L>, levels_finite: bool) -> Option<
    Seq<char>,
> {
    match event {
        SessionRealtimeEvent::NoiseWarning { persistence_ms, .. } => if !levels_finite {
            Some("noise warning event contains non-finite levels"@)
        } else if persistence_ms == 0 {
            Some("noise warning persistence must be positive"@)
        } else {
            None
        },
        SessionRealtimeEvent::SilenceCountdown {
            total_ms,
            remaining_ms,
            state,
            cancel_reason,
            ..
        } => countdown_fault(total_ms, remaining_ms, state, cancel_reason),
        SessionRealtimeEvent::AutoStop { .. } => None,
    }
}

impl<L: Copy> SessionRealtimeEvent<L> {
    /// Checks that the event makes sense. Whether its levels are finite numbers
    /// is for the caller to say.
    pub fn validate(&self, levels_finite: bool) -> (r: Result<(), String>)
        ensures
            match event_fault(*self, levels_finite) {
                Some(fault) => r matches Err(e) && e@ == fault,
                None => r is Ok,
            },
    {
        match self {
            SessionRealtimeEvent::NoiseWarning { persistence_ms, .. } => {
                if !levels_finite {
                    return Err("noise warning event contains non-finite levels".to_owned());
                }
                if *persistence_ms == 0 {
                    return Err("noise warning persistence must be positive".to_owned());
                }
            },
            SessionRealtimeEvent::SilenceCountdown {
                total_ms,
                remaining_ms,
                state,
                cancel_reason,
                ..
            } => {
                if *total_ms == 0 {
                    return Err("silence countdown total must be positive".to_owned());
                }
                if *remaining_ms > *total_ms {
                    return Err("silence countdown remaining exceeds total".to_owned());
                }
                if *state == SessionSilenceCountdownState::Completed && *remaining_ms != 0 {
                    return Err(
                        "completed silence countdown must report 0 remaining".to_owned(),
                    );
                }
                if *state == SessionSilenceCountdownState::Canceled {
                    if cancel_reason.is_none() {
                        return Err(
                            "canceled silence countdown must include a reason".to_owned(),
                        );
                    }
                } else if cancel_reason.is_some() {
                    return Err(
                        "silence countdown cancel reason only allowed when state is canceled".to_owned(),
                    );
                }
            },
            SessionRealtimeEvent::AutoStop { .. } => {},
        }
        Ok(())
    }

    /// The event for the user interface that tells of a core event, now.
    pub fn from_core_event(event: CoreSessionEvent<L>) -> (r: Self)
        ensures
            exists|now: u128| r == #[trigger] told_at(event, now),
    {
        Self::from_core_event_at(event, clock::current_timestamp_ms())
    }

    /// The event for the user interface that tells of a core event.
    pub fn from_core_event_at(event: CoreSessionEvent<L>, timestamp_ms: u128) -> (r: Self)
        ensures
            r == told_at(event, timestamp_ms),
    {
        match event {
            CoreSessionEvent::NoiseWarning(payload) => SessionRealtimeEvent::NoiseWarning {
                timestamp_ms,
                baseline_db: payload.baseline_db,
                threshold_db: payload.threshold_db,
                level_db: payload.level_db,
                persistence_ms: payload.persistence_ms,
            },
            CoreSessionEvent::SilenceCountdown(payload) => {
                SessionRealtimeEvent::SilenceCountdown {
                    timestamp_ms,
                    total_ms: payload.total_ms,
                    remaining_ms: payload.remaining_ms,
                    state: SessionSilenceCountdownState::from(payload.state),
                    cancel_reason: match payload.cancel_reason {
                        Some(reason) => Some(SessionSilenceCancellationReason::from(reason)),
                        None => None,
                    },
                }
            },
            CoreSessionEvent::AutoStop(payload) => SessionRealtimeEvent::AutoStop {
                timestamp_ms,
                reason: SessionAutoStopReason::from(payload.reason),
            },
        }
    }
}

/// The event that tells of a core event at `timestamp_ms`.
pub open spec fn told_at<L>(event: CoreSessionEvent<L>, timestamp_ms: u128) -> SessionRealtimeEvent<
    L,
> {
    match event {
        CoreSessionEvent::NoiseWarning(payload) => SessionRealtimeEvent::NoiseWarning {
            timestamp_ms,
            baseline_db: payload.baseline_db,
            threshold_db: payload.threshold_db,
            level_db: payload.level_db,
            persistence_ms: payload.persistence_ms,
        },
        CoreSessionEvent::SilenceCountdown(payload) => SessionRealtimeEvent::SilenceCountdown {
            timestamp_ms,
            total_ms: payload.total_ms,
            remaining_ms: payload.remaining_ms,
            state: countdown_state(payload.state),
            cancel_reason: match payload.cancel_reason {
                Some(reason) => Some(cancellation_reason(reason)),
                None => None,
            },
        },
        CoreSessionEvent::AutoStop(payload) => SessionRealtimeEvent::AutoStop {
            timestamp_ms,
            reason: SessionAutoStopReason::SilenceTimeout,
        },
    }
}

pub open spec fn countdown_state(value: CoreSilenceCountdownState) -> SessionSilenceCountdownState {
    match value {
        CoreSilenceCountdownState::Started => SessionSilenceCountdownState::Started,
        CoreSilenceCountdownState::Tick => SessionSilenceCountdownState::Tick,
        CoreSilenceCountdownState::Canceled => SessionSilenceCountdownState::Canceled,
        CoreSilenceCountdownState::Completed => SessionSilenceCountdownState::Completed,
    }
}

pub open spec fn cancellation_reason(
    value: CoreSilenceCancellationReason,
) -> SessionSilenceCancellationReason {
    match value {
        CoreSilenceCancellationReason::SpeechDetected => {
            SessionSilenceCancellationReason::SpeechDetected
        },
        CoreSilenceCancellationReason::ManualStop => SessionSilenceCancellationReason::ManualStop,
    }
}

impl From<CoreSilenceCountdownState> for SessionSilenceCountdownState {
    fn from(value: CoreSilenceCountdownState) -> (r: Self) {
        match value {
            CoreSilenceCountdownState::Started => SessionSilenceCountdownState::Started,
            CoreSilenceCountdownState::Tick => SessionSilenceCountdownState::Tick,
            CoreSilenceCountdownState::Canceled => SessionSilenceCountdownState::Canceled,
            CoreSilenceCountdownState::Completed => SessionSilenceCountdownState::Completed,
        }
    }
}

impl FromSpecImpl<CoreSilenceCountdownState> for SessionSilenceCountdownState {
    open spec fn obeys_from_spec() -> bool {
        true
    }

    open spec fn from_spec(v: CoreSilenceCountdownState) -> Self {
        countdown_state(v)
    }
}

impl From<CoreSilenceCancellationReason> for SessionSilenceCancellationReason {
    fn from(value: CoreSilenceCancellationReason) -> (r: Self) {
        match value {
            CoreSilenceCancellationReason::SpeechDetected => {
                SessionSilenceCancellationReason::SpeechDetected
            },
            CoreSilenceCancellationReason::ManualStop => {
                SessionSilenceCancellationReason::ManualStop
            },
        }
    }
}

impl FromSpecImpl<CoreSilenceCancellationReason> for SessionSilenceCancellationReason {
    open spec fn obeys_from_spec() -> bool {
        true
    }

    open spec fn from_spec(v: CoreSilenceCancellationReason) -> Self {
        cancellation_reason(v)
    }
}

impl From<CoreAutoStopReason> for SessionAutoStopReason {
    fn from(value: CoreAutoStopReason) -> (r: Self) {
        match value {
            CoreAutoStopReason::SilenceTimeout => SessionAutoStopReason::SilenceTimeout,
        }
    }
}

impl FromSpecImpl<CoreAutoStopReason> for SessionAutoStopReason {
    open spec fn obeys_from_spec() -> bool {
        true
    }

    open spec fn from_spec(v: CoreAutoStopReason) -> Self {
        SessionAutoStopReason::SilenceTimeout
    }
}

/// Everything that the silence detector reports is accepted, provided that a
/// reason is given exactly for cancellations.
pub proof fn law_detector_countdowns_are_valid(
    silence: noise::SilenceState,
    limit: u64,
    quiet: bool,
    reason: SessionSilenceCancellationReason,
)
    ensures
        match noise::silence_event(silence, limit, quiet) {
            None => true,
            Some(payload) => match payload.status {
                noise::SilenceCountdownStatus::Started => countdown_fault(
                    payload.total_ms,
                    payload.remaining_ms,
                    SessionSilenceCountdownState::Started,
                    None,
                ) is None,
                noise::SilenceCountdownStatus::Tick => countdown_fault(
                    payload.total_ms,
                    payload.remaining_ms,
                    SessionSilenceCountdownState::Tick,
                    None,
                ) is None,
                noise::SilenceCountdownStatus::Canceled => countdown_fault(
                    payload.total_ms,
                    payload.remaining_ms,
                    SessionSilenceCountdownState::Canceled,
                    Some(reason),
                ) is None,
                noise::SilenceCountdownStatus::Completed => countdown_fault(
                    payload.total_ms,
                    payload.remaining_ms,
                    SessionSilenceCountdownState::Completed,
                    None,
                ) is None,
            },
        },
{
}

#[derive(Debug, Clone, Copy, PartialEq, Eq, Structural)]
pub enum PublishStrategy {
    DirectInsert,
    ClipboardFallback,
    NotifyOnly,
}

#[derive(Debug, Clone, Copy, PartialEq, Eq, Structural)]
pub enum FallbackStrategy {
    ClipboardCopy,
    NotifyOnly,
}

#[derive(Debug, Clone, Copy, PartialEq, Eq, Structural)]
pub enum PublishStatus {
    Completed,
    Deferred,
    Failed,
}

#[derive(Debug, Clone, Copy, PartialEq, Eq, Structural)]
pub enum PublishNoticeLevel {
    Info,
    Warn,
    Error,
}

#[derive(Debug, Clone, Copy, PartialEq, Eq, Structural)]
pub enum PublishActionKind {
    Insert,
    Copy,
    SaveDraft,
    UndoPrompt,
}

#[derive(Debug, Clone, PartialEq, Eq)]
pub struct PublishingUpdate {
    pub session_id: String,
    pub attempt: u8,
    pub strategy: PublishStrategy,
    pub fallback: Option<FallbackStrategy>,
    pub retrying: bool,
    pub detail: Option<String>,
    pub timestamp_ms: u128,
}

impl PublishingUpdate {
    /// An update that happens now.
    pub fn new(
        session_id: String,
        attempt: u8,
        strategy: PublishStrategy,
        fallback: Option<FallbackStrategy>,
        retrying: bool,
        detail: Option<String>,
    ) -> (r: Self)
        ensures
            r == (PublishingUpdate {
                session_id,
                attempt,
                strategy,
                fallback,
                retrying,
                detail,
                timestamp_ms: r.timestamp_ms,
            }),
    {
        PublishingUpdate {
            session_id,
            attempt,
            strategy,
            fallback,
            retrying,
            detail,
            timestamp_ms: clock::current_timestamp_ms(),
        }
    }
}

#[derive(Debug, Clone, PartialEq, Eq)]
pub struct InsertionFailure {
    pub code: Option<String>,
    pub message: String,
}

#[derive(Debug, Clone, PartialEq, Eq)]
pub struct InsertionResult {
    pub session_id: String,
    pub status: PublishStatus,
    pub strategy: PublishStrategy,
    pub attempts: u8,
    pub fallback: Option<FallbackStrategy>,
    pub failure: Option<InsertionFailure>,
    pub undo_token: Option<String>,
    pub timestamp_ms: u128,
}

impl InsertionResult {
    /// A result that arrives now.
    pub fn new(
        session_id: String,
        status: PublishStatus,
        strategy: PublishStrategy,
        attempts: u8,
        fallback: Option<FallbackStrategy>,
        failure: Option<InsertionFailure>,
        undo_token: Option<String>,
    ) -> (r: Self)
        ensures
            r == (InsertionResult {
                session_id,
                status,
                strategy,
                attempts,
                fallback,
                failure,
                undo_token,
                timestamp_ms: r.timestamp_ms,
            }),
    {
        InsertionResult {
            session_id,
            status,
            strategy,
            attempts,
            fallback,
            failure,
            undo_token,
            timestamp_ms: clock::current_timestamp_ms(),
        }
    }
}

#[derive(Debug, Clone, PartialEq, Eq)]
pub struct PublishNotice {
    pub session_id: String,
    pub action: PublishActionKind,
    pub level: PublishNoticeLevel,
    pub message: String,
    pub undo_token: Option<String>,
    pub timestamp_ms: u128,
}

impl PublishNotice {
    /// A notice that is given now.
    pub fn new(
        session_id: String,
        action: PublishActionKind,
        level: PublishNoticeLevel,
        message: String,
        undo_token: Option<String>,
    ) -> (r: Self)
        ensures
            r == (PublishNotice {
                session_id,
                action,
                level,
                message,
                undo_token,
                timestamp_ms: r.timestamp_ms,
            }),
    {
        PublishNotice {
            session_id,
            action,
            level,
            message,
            undo_token,
            timestamp_ms: clock::current_timestamp_ms(),
        }
    }
}

/// The phases that lead into a recording, with their details, in order. The
/// pre-roll is left out if there is nothing to say of it.
pub fn preroll_phases(priming_detail: String, preroll_detail: String) -> (r: Vec<(String, String)>)
    ensures
        r@.len() == if text::trim(preroll_detail@).len() > 0 {
            2nat
        } else {
            1nat
        },
        r@[0].0@ == "Priming"@,
        r@[0].1 == priming_detail,
        r@.len() == 2 ==> r@[1].0@ == "PreRoll"@ && r@[1].1 == preroll_detail,
{
    let mut phases: Vec<(String, String)> = Vec::new();
    let send_preroll = !text::is_blank(preroll_detail.as_str());
    phases.push(("Priming".to_owned(), priming_detail));
    if send_preroll {
        phases.push(("PreRoll".to_owned(), preroll_detail));
    }
    phases
}

/// The phase while the core is not connected yet.
pub fn processing_phase() -> (r: (String, String))
    ensures
        r.0@ == "Processing"@,
        r.1@ == "Awaiting core-service handshake"@,
{
    ("Processing".to_owned(), "Awaiting core-service handshake".to_owned())
}

/// The phase when everything is ready.
pub fn ready_phase() -> (r: (String, String))
    ensures
        r.0@ == "Ready"@,
        r.1@ == "Session ready for hands-free capture"@,
{
    ("Ready".to_owned(), "Session ready for hands-free capture".to_owned())
}

/// The session as the desktop shell knows it, with levels of type `L`.
pub struct SessionStateManager<L> {
    current: SessionStatus,
    history: Vec<SessionStatus>,
    transcript_history: Vec<TranscriptStreamEvent>,
    publishing_history: Vec<PublishingUpdate>,
    insertion_history: Vec<InsertionResult>,
    notice_history: Vec<PublishNotice>,
    event_history: Vec<SessionRealtimeEvent<L>>,
}

/// What a session state manager holds: all histories oldest first.
pub struct ManagerState<L> {
    pub current: SessionStatus,
    pub timeline: Seq<SessionStatus>,
    pub transcripts: Seq<TranscriptStreamEvent>,
    pub publishing: Seq<PublishingUpdate>,
    pub insertions: Seq<InsertionResult>,
    pub notices: Seq<PublishNotice>,
    pub events: Seq<SessionRealtimeEvent<L>>,
}

impl<L> View for SessionStateManager<L> {
    type V = ManagerState<L>;

    closed spec fn view(&self) -> ManagerState<L> {
        ManagerState {
            current: self.current,
            timeline: self.history@,
            transcripts: self.transcript_history@,
            publishing: self.publishing_history@,
            insertions: self.insertion_history@,
            notices: self.notice_history@,
            events: self.event_history@,
        }
    }
}

/// The histories stay within their limits.
pub open spec fn histories_bounded<L>(m: ManagerState<L>) -> bool {
    &&& m.timeline.len() <= MAX_TIMELINE
    &&& m.transcripts.len() <= MAX_TRANSCRIPT_HISTORY
    &&& m.publishing.len() <= MAX_COMPLETION_HISTORY
    &&& m.insertions.len() <= MAX_COMPLETION_HISTORY
    &&& m.notices.len() <= MAX_COMPLETION_HISTORY
    &&& m.events.len() <= MAX_SESSION_EVENT_HISTORY
}

/// Two statuses say the same.
pub open spec fn same_status(a: SessionStatus, b: SessionStatus) -> bool {
    a.phase@ == b.phase@ && a.detail@ == b.detail@ && a.timestamp_ms == b.timestamp_ms
}

/// Whether a status is that of a session which has not begun.
pub open spec fn is_idle(status: SessionStatus) -> bool {
    &&& status.phase@ == "Idle"@
    &&& status.detail@ == "Core service bridge not connected — awaiting initialization"@
}

/// Whether a session has not begun: it is idle, the timeline says only that, and
/// nothing else has happened.
pub open spec fn is_fresh<L>(m: ManagerState<L>) -> bool {
    &&& is_idle(m.current)
    &&& m.timeline.len() == 1
    &&& is_idle(m.timeline[0])
    &&& m.transcripts == Seq::<TranscriptStreamEvent>::empty()
    &&& m.publishing == Seq::<PublishingUpdate>::empty()
    &&& m.insertions == Seq::<InsertionResult>::empty()
    &&& m.notices == Seq::<PublishNotice>::empty()
    &&& m.events == Seq::<SessionRealtimeEvent<L>>::empty()
}

impl<L: Copy> SessionStateManager<L> {
    /// An idle session with empty histories.
    pub fn new() -> (r: Self)
        ensures
            histories_bounded(r@),
            is_fresh(r@),
    {
        let mut history: Vec<SessionStatus> = Vec::new();
        history.push(SessionStatus::default());
        SessionStateManager {
            current: SessionStatus::default(),
            history,
            transcript_history: Vec::new(),
            publishing_history: Vec::new(),
            insertion_history: Vec::new(),
            notice_history: Vec::new(),
            event_history: Vec::new(),
        }
    }

    /// The present status.
    pub fn snapshot(&self) -> (r: &SessionStatus)
        ensures
            *r == self@.current,
    {
        &self.current
    }

    /// The latest statuses, oldest first.
    pub fn timeline(&self) -> (r: &Vec<SessionStatus>)
        ensures
            r@ == self@.timeline,
    {
        &self.history
    }

    /// Moves to a phase, which begins now, and notes it in the timeline.
    pub fn transition(&mut self, phase: String, detail: String) -> (r: SessionStatus)
        requires
            histories_bounded(old(self)@),
        ensures
            histories_bounded(final(self)@),
            r.phase@ == phase@,
            r.detail@ == detail@,
            same_status(final(self)@.current, r),
            final(self)@.timeline == bounded::retained(
                old(self)@.timeline,
                final(self)@.timeline.last(),
                MAX_TIMELINE as nat,
            ),
            final(self)@.timeline.len() > 0,
            same_status(final(self)@.timeline.last(), r),
            final(self)@ == (ManagerState {
                current: final(self)@.current,
                timeline: final(self)@.timeline,
                ..old(self)@
            }),
    {
        let updated = SessionStatus::new(phase, detail);
        self.current = updated.copy();
        let entry = updated.copy();
        bounded::retain_with_limit(&mut self.history, entry, MAX_TIMELINE);
        assert(self.history@.last() == entry);
        updated
    }

    /// Notes a transcript event.
    pub fn record_transcript_event(&mut self, event: TranscriptStreamEvent)
        requires
            histories_bounded(old(self)@),
        ensures
            histories_bounded(final(self)@),
            final(self)@ == (ManagerState {
                transcripts: bounded::retained(
                    old(self)@.transcripts,
                    event,
                    MAX_TRANSCRIPT_HISTORY as nat,
                ),
                ..old(self)@
            }),
    {
        bounded::retain_with_limit(&mut self.transcript_history, event, MAX_TRANSCRIPT_HISTORY);
    }

    /// The latest transcript events, oldest first.
    pub fn transcript_log(&self) -> (r: &Vec<TranscriptStreamEvent>)
        ensures
            r@ == self@.transcripts,
    {
        &self.transcript_history
    }

    /// Notes a session event.
    pub fn record_session_event(&mut self, event: SessionRealtimeEvent<L>)
        requires
            histories_bounded(old(self)@),
        ensures
            histories_bounded(final(self)@),
            final(self)@ == (ManagerState {
                events: bounded::retained(
                    old(self)@.events,
                    event,
                    MAX_SESSION_EVENT_HISTORY as nat,
                ),
                ..old(self)@
            }),
    {
        bounded::retain_with_limit(&mut self.event_history, event, MAX_SESSION_EVENT_HISTORY);
    }

    /// Notes a session event that makes sense; any other is refused.
    pub fn accept_session_event(&mut self, event: SessionRealtimeEvent<L>, levels_finite: bool) -> (r:
        Result<(), String>)
        requires
            histories_bounded(old(self)@),
        ensures
            histories_bounded(final(self)@),
            match event_fault(event, levels_finite) {
                Some(fault) => {
                    &&& r matches Err(e) && e@ == fault
                    &&& *final(self) == *old(self)
                },
                None => {
                    &&& r is Ok
                    &&& final(self)@ == (ManagerState {
                        events: bounded::retained(
                            old(self)@.events,
                            event,
                            MAX_SESSION_EVENT_HISTORY as nat,
                        ),
                        ..old(self)@
                    })
                },
            },
    {
        match event.validate(levels_finite) {
            Err(fault) => Err(fault),
            Ok(_) => {
                self.record_session_event(event);
                Ok(())
            },
        }
    }

    /// The latest session events, oldest first.
    pub fn session_event_history(&self) -> (r: &Vec<SessionRealtimeEvent<L>>)
        ensures
            r@ == self@.events,
    {
        &self.event_history
    }

    /// Notes a publishing update.
    pub fn record_publishing_update(&mut self, update: PublishingUpdate)
        requires
            histories_bounded(old(self)@),
        ensures
            histories_bounded(final(self)@),
            final(self)@ == (ManagerState {
                publishing: bounded::retained(
                    old(self)@.publishing,
                    update,
                    MAX_COMPLETION_HISTORY as nat,
                ),
                ..old(self)@
            }),
    {
        bounded::retain_with_limit(&mut self.publishing_history, update, MAX_COMPLETION_HISTORY);
    }

    /// The latest publishing updates, oldest first.
    pub fn publishing_history(&self) -> (r: &Vec<PublishingUpdate>)
        ensures
            r@ == self@.publishing,
    {
        &self.publishing_history
    }

    /// Notes an insertion result.
    pub fn record_insertion_result(&mut self, result: InsertionResult)
        requires
            histories_bounded(old(self)@),
        ensures
            histories_bounded(final(self)@),
            final(self)@ == (ManagerState {
                insertions: bounded::retained(
                    old(self)@.insertions,
                    result,
                    MAX_COMPLETION_HISTORY as nat,
                ),
                ..old(self)@
            }),
    {
        bounded::retain_with_limit(&mut self.insertion_history, result, MAX_COMPLETION_HISTORY);
    }

    /// The latest insertion results, oldest first.
    pub fn insertion_history(&self) -> (r: &Vec<InsertionResult>)
        ensures
            r@ == self@.insertions,
    {
        &self.insertion_history
    }

    /// Notes a publish notice.
    pub fn record_publish_notice(&mut self, notice: PublishNotice)
        requires
            histories_bounded(old(self)@),
        ensures
            histories_bounded(final(self)@),
            final(self)@ == (ManagerState {
                notices: bounded::retained(
                    old(self)@.notices,
                    notice,
                    MAX_COMPLETION_HISTORY as nat,
                ),
                ..old(self)@
            }),
    {
        bounded::retain_with_limit(&mut self.notice_history, notice, MAX_COMPLETION_HISTORY);
    }

    /// The latest publish notices, oldest first.
    pub fn publish_notice_history(&self) -> (r: &Vec<PublishNotice>)
        ensures
            r@ == self@.notices,
    {
        &self.notice_history
    }
}

/// What the core tells is passed on as it is, with the time.
pub proof fn law_events_are_passed_on<L>(event: CoreSessionEvent<L>, timestamp_ms: u128)
    ensures
        countdown_state(CoreSilenceCountdownState::Started)
            == SessionSilenceCountdownState::Started,
        countdown_state(CoreSilenceCountdownState::Tick) == SessionSilenceCountdownState::Tick,
        countdown_state(CoreSilenceCountdownState::Canceled)
            == SessionSilenceCountdownState::Canceled,
        countdown_state(CoreSilenceCountdownState::Completed)
            == SessionSilenceCountdownState::Completed,
        cancellation_reason(CoreSilenceCancellationReason::SpeechDetected)
            == SessionSilenceCancellationReason::SpeechDetected,
        cancellation_reason(CoreSilenceCancellationReason::ManualStop)
            == SessionSilenceCancellationReason::ManualStop,
        event matches CoreSessionEvent::NoiseWarning(w) ==> told_at(event, timestamp_ms) == (
        SessionRealtimeEvent::NoiseWarning {
            timestamp_ms,
            baseline_db: w.baseline_db,
            threshold_db: w.threshold_db,
            level_db: w.level_db,
            persistence_ms: w.persistence_ms,
        }),
        event matches CoreSessionEvent::SilenceCountdown(c) ==> (told_at(
            event,
            timestamp_ms,
        ) matches SessionRealtimeEvent::SilenceCountdown {
            timestamp_ms: t,
            total_ms,
            remaining_ms,
            state,
            cancel_reason,
        } && t == timestamp_ms && total_ms == c.total_ms && remaining_ms == c.remaining_ms && state
            == countdown_state(c.state) && (cancel_reason is Some <==> c.cancel_reason is Some)),
{
}

/// A countdown is in order exactly when it has a length, no more of it is left
/// than that, nothing is left of a completed one, and a reason is given where it
/// was cancelled and nowhere else.
pub proof fn law_countdown_is_in_order(
    total_ms: u32,
    remaining_ms: u32,
    state: SessionSilenceCountdownState,
    cancel_reason: Option<SessionSilenceCancellationReason>,
)
    ensures
        countdown_fault(total_ms, remaining_ms, state, cancel_reason) is None <==> {
            &&& total_ms > 0
            &&& remaining_ms <= total_ms
            &&& state == SessionSilenceCountdownState::Completed ==> remaining_ms == 0
            &&& state == SessionSilenceCountdownState::Canceled <==> cancel_reason is Some
        },
{
}

/// The histories are as long as these, and no longer.
pub proof fn law_histories_have_their_limits<L>(m: ManagerState<L>)
    ensures
        histories_bounded(m) <==> {
            &&& m.timeline.len() <= 50
            &&& m.transcripts.len() <= 120
            &&& m.publishing.len() <= 120
            &&& m.insertions.len() <= 120
            &&& m.notices.len() <= 120
            &&& m.events.len() <= 120
        },
{
}

/// An event is in order exactly when its levels are numbers and it lasted, for a
/// warning, and when the countdown is, for a countdown. The end of a recording
/// always is.
pub proof fn law_event_is_in_order<L>(event: SessionRealtimeEvent<L>, levels_finite: bool)
    ensures
        event matches SessionRealtimeEvent::NoiseWarning { persistence_ms, .. } ==> (event_fault(
            event,
            levels_finite,
        ) is None <==> levels_finite && persistence_ms > 0),
        event matches SessionRealtimeEvent::SilenceCountdown {
            total_ms,
            remaining_ms,
            state,
            cancel_reason,
            ..
        } ==> event_fault(event, levels_finite) == countdown_fault(
            total_ms,
            remaining_ms,
            state,
            cancel_reason,
        ),
        event is AutoStop ==> event_fault(event, levels_finite) is None,
{
}

} // verus!
