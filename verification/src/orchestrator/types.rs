//! What a session reports to its listeners, and the commands it takes.
use vstd::prelude::*;

verus! {

#[derive(Debug, Clone)]
pub enum UpdatePayload {
    Transcript(TranscriptPayload),
    Notice(SessionNotice),
    Selection(TranscriptSelectionPayload),
}

#[derive(Debug, Clone)]
pub struct TranscriptPayload {
    pub sentence_id: u64,
    pub text: String,
    pub source: TranscriptSource,
    pub is_primary: bool,
    pub within_sla: bool,
}

#[derive(Debug, Clone)]
pub struct TranscriptSelectionPayload {
    pub selections: Vec<SentenceSelection>,
}

/// Which text of a sentence is shown.
#[derive(Debug, Clone, Copy, PartialEq, Eq, Structural)]
pub enum SentenceVariant {
    Raw,
    Polished,
}

#[derive(Debug, Clone, Copy, PartialEq, Eq, Structural)]
pub struct SentenceSelection {
    pub sentence_id: u64,
    pub active_variant: SentenceVariant,
}

/// The name of a variant in logs.
pub fn variant_label(variant: SentenceVariant) -> (r: &'static str)
    ensures
        r@ == match variant {
            SentenceVariant::Raw => "raw"@,
            SentenceVariant::Polished => "polished"@,
        },
{
    match variant {
        SentenceVariant::Raw => "raw",
        SentenceVariant::Polished => "polished",
    }
}

#[derive(Debug, Clone)]
pub enum TranscriptCommand {
    ApplySelection(Vec<SentenceSelection>),
}

/// Where a transcript text comes from.
#[derive(Debug, Clone, Copy, PartialEq, Eq, Structural)]
pub enum TranscriptSource {
    Local,
    Cloud,
    Polished,
}

impl TranscriptSource {
    /// The name of a source in logs.
    pub fn as_str(&self) -> (r: &'static str)
        ensures
            r@ == match *self {
                TranscriptSource::Local => "local"@,
                TranscriptSource::Cloud => "cloud"@,
                TranscriptSource::Polished => "polished"@,
            },
    {
        match self {
            TranscriptSource::Local => "local",
            TranscriptSource::Cloud => "cloud",
            TranscriptSource::Polished => "polished",
        }
    }
}

#[derive(Debug, Clone, Copy, PartialEq, Eq, Structural)]
pub enum NoticeLevel {
    Info,
    Warn,
    Error,
}

#[derive(Debug, Clone)]
pub struct SessionNotice {
    pub level: NoticeLevel,
    pub message: String,
}

/// One report of a session. Frames are counted from one; index zero stands for
/// no frame.
#[derive(Debug, Clone)]
pub struct TranscriptionUpdate {
    pub payload: UpdatePayload,
    pub latency_ns: u64,
    pub frame_index: u64,
    pub is_first: bool,
}

/// `u` is a notice with the given level and text.
pub open spec fn is_notice(
    u: TranscriptionUpdate,
    level: NoticeLevel,
    message: Seq<char>,
    latency_ns: u64,
    frame_index: u64,
) -> bool {
    &&& u.payload matches UpdatePayload::Notice(n) && n.level == level && n.message@ == message
    &&& u.latency_ns == latency_ns
    &&& u.frame_index == frame_index
    &&& !u.is_first
}

/// `u` carries a transcript text.
pub open spec fn is_transcript(
    u: TranscriptionUpdate,
    sentence_id: u64,
    text: Seq<char>,
    source: TranscriptSource,
    is_primary: bool,
    within_sla: bool,
    latency_ns: u64,
    frame_index: u64,
    is_first: bool,
) -> bool {
    &&& u.payload matches UpdatePayload::Transcript(t) && t.sentence_id == sentence_id && t.text@
        == text && t.source == source && t.is_primary == is_primary && t.within_sla == within_sla
    &&& u.latency_ns == latency_ns
    &&& u.frame_index == frame_index
    &&& u.is_first == is_first
}

/// Whether a text of `source` leads: the local engine does until it is degraded,
/// then the cloud does. A polished text leads if its raw one did.
pub open spec fn leads(source: TranscriptSource, degraded: bool) -> bool {
    match source {
        TranscriptSource::Local => !degraded,
        TranscriptSource::Cloud => degraded,
        TranscriptSource::Polished => !degraded,
    }
}

/// One of the two engines leads, never both and never none: the local one as
/// long as it keeps up.
pub proof fn law_one_engine_leads(degraded: bool)
    ensures
        leads(TranscriptSource::Local, degraded) != leads(TranscriptSource::Cloud, degraded),
        leads(TranscriptSource::Local, false),
        leads(TranscriptSource::Cloud, true),
{
}

/// Whether something that took `elapsed_ns` was done in time.
pub open spec fn in_time(elapsed_ns: u64, deadline_ns: u64) -> bool {
    elapsed_ns <= deadline_ns
}

/// A deadline is met up to its last moment and missed after it, and whatever is
/// faster than something in time is in time too.
pub proof fn law_deadline_includes_its_end(deadline_ns: u64, elapsed_ns: u64, faster_ns: u64)
    ensures
        in_time(deadline_ns, deadline_ns),
        elapsed_ns > deadline_ns ==> !in_time(elapsed_ns, deadline_ns),
        in_time(elapsed_ns, deadline_ns) && faster_ns <= elapsed_ns ==> in_time(
            faster_ns,
            deadline_ns,
        ),
{
}

/// A notice that belongs to a frame.
pub fn notice(level: NoticeLevel, message: &str, latency_ns: u64, frame_index: u64) -> (u:
    TranscriptionUpdate)
    ensures
        is_notice(u, level, message@, latency_ns, frame_index),
{
    TranscriptionUpdate {
        payload: UpdatePayload::Notice(SessionNotice { level, message: message.to_owned() }),
        latency_ns,
        frame_index,
        is_first: false,
    }
}

} // verus!
