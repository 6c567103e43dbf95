//! What happens to one frame on the local engine: its text is cut into
//! sentences, each sentence is registered and reported, and delivered ones are
//! sent to the polisher.
//!
//! The caller runs the engine, the channel and the polisher; the functions here
//! decide what each outcome means.
use vstd::prelude::*;

use crate::orchestrator::config::RealtimeSessionConfig;
use crate::orchestrator::progress::LocalProgress;
use crate::orchestrator::sentence_buffer::LocalDecoderState;
use crate::orchestrator::sentence_store::SentenceStore;
use crate::orchestrator::types::{
    NoticeLevel, TranscriptCommand, TranscriptPayload, TranscriptSelectionPayload, TranscriptSource,
    TranscriptionUpdate, UpdatePayload,
};
use crate::orchestrator::{progress, sentence_buffer, sentence_store, types};
use crate::text;

verus! {

/// What the tasks of a session share.
pub struct SessionState {
    /// Whether an update has been claimed as the first of the session.
    pub first_update: bool,
    /// Whether a local update has been delivered.
    pub first_local_update: bool,
    pub progress: LocalProgress,
    pub decoder: LocalDecoderState,
    pub sentences: SentenceStore,
}

impl SessionState {
    pub open spec fn wf(&self) -> bool {
        &&& sentence_buffer::buffer_ok(self.decoder.sentence_buffer@)
        &&& self.sentences.wf()
    }

    pub fn new(config: &RealtimeSessionConfig) -> (r: Self)
        ensures
            r.wf(),
            !r.first_update,
            !r.first_local_update,
            r.progress == (LocalProgress {
                last_frame: 0,
                degraded: false,
                last_update_ms: 0,
                speech_started_ms: 0,
                speech_active: false,
            }),
            r.decoder.sentence_buffer@ == (sentence_buffer::BufferState {
                pending: Seq::empty(),
                since: None,
                window_ns: config.raw_emit_window_ns,
            }),
            r.sentences.last_id() == 0,
            r.sentences.records() == Map::<u64, sentence_store::SentenceRecord>::empty(),
    {
        SessionState {
            first_update: false,
            first_local_update: false,
            progress: LocalProgress::new(),
            decoder: LocalDecoderState::new(config.raw_emit_window_ns),
            sentences: SentenceStore::new(),
        }
    }
}

/// A step that bears on which update counts as the first of the session.
pub enum FirstStep {
    /// A frame of the local engine yields this many sentences.
    Local { sentences: nat },
    /// The cloud engine returns a text.
    Cloud { prefer_cloud: bool, had_local: bool },
    /// A frame gives its claim back because its report was not delivered.
    Returned,
}

/// Whether a step claims the first update.
pub open spec fn claims_first(first_update: bool, step: FirstStep) -> bool {
    match step {
        FirstStep::Local { sentences } => sentences > 0 && !first_update,
        FirstStep::Cloud { prefer_cloud, had_local } => prefer_cloud && had_local && !first_update,
        FirstStep::Returned => false,
    }
}

/// Whether the first update is gone after a step.
pub open spec fn first_gone(first_update: bool, step: FirstStep) -> bool {
    match step {
        FirstStep::Local { sentences } => first_update || sentences > 0,
        FirstStep::Cloud { .. } => true,
        FirstStep::Returned => false,
    }
}

/// Whether the first update is gone after all of `steps`.
pub open spec fn first_gone_after(first_update: bool, steps: Seq<FirstStep>) -> bool
    decreases steps.len(),
{
    if steps.len() == 0 {
        first_update
    } else {
        first_gone(first_gone_after(first_update, steps.drop_last()), steps.last())
    }
}

/// How many of `steps` claim the first update.
pub open spec fn claims_in(first_update: bool, steps: Seq<FirstStep>) -> nat
    decreases steps.len(),
{
    if steps.len() == 0 {
        0
    } else {
        claims_in(first_update, steps.drop_last()) + if claims_first(
            first_gone_after(first_update, steps.drop_last()),
            steps.last(),
        ) {
            1nat
        } else {
            0nat
        }
    }
}

/// As long as no claim is given back, at most one update of a session is its
/// first, whatever the engines do.
pub proof fn law_at_most_one_first_update(first_update: bool, steps: Seq<FirstStep>)
    requires
        forall|i: int| 0 <= i < steps.len() ==> (#[trigger] steps[i]) !is Returned,
    ensures
        claims_in(first_update, steps) <= 1,
        claims_in(first_update, steps) == 1 ==> !first_update && first_gone_after(
            first_update,
            steps,
        ),
        first_update ==> first_gone_after(first_update, steps),
    decreases steps.len(),
{
    if steps.len() > 0 {
        assert forall|i: int| 0 <= i < steps.drop_last().len() implies (
        #[trigger] steps.drop_last()[i]) !is Returned by {
            assert(steps[i] !is Returned);
        }
        law_at_most_one_first_update(first_update, steps.drop_last());
        assert(steps[steps.len() - 1] !is Returned);
    }
}

/// The notice that tells of a local engine that lags on frame `frame_index`.
pub open spec fn lag_message(frame_index: u64) -> Seq<char> {
    if frame_index == 1 {
        "本地解码延迟异常，已保留回退提示"@
    } else {
        "本地解码增量延迟，已保留回退提示"@
    }
}

/// The text of the notice that tells of a lagging local engine.
pub fn lag_notice_message(frame_index: u64) -> (r: &'static str)
    ensures
        r@ == lag_message(frame_index),
{
    if frame_index == 1 {
        "本地解码延迟异常，已保留回退提示"
    } else {
        "本地解码增量延迟，已保留回退提示"
    }
}

/// A sentence that waits for its polished text.
pub struct PolishJob {
    pub sentence_id: u64,
    pub text: String,
    pub is_primary: bool,
    pub frame_index: u64,
}

/// The reports that one transcribed frame still has to make.
pub struct LocalTask {
    pub frame_index: u64,
    /// Whether this frame claimed the first update of the session.
    pub claimed_first: bool,
    /// Whether no local update had been delivered when the frame was done.
    pub was_first_local: bool,
    /// Whether the local engine leads.
    pub is_primary: bool,
    /// Whether a report of this frame was delivered.
    pub emitted: bool,
    /// The sentences of the frame, in order.
    pub sentences: Vec<String>,
    /// How many sentences have been reported.
    pub reported: usize,
    /// The identifier of the sentence reported last.
    pub last_id: u64,
}

impl LocalTask {
    pub open spec fn wf(&self) -> bool {
        self.reported <= self.sentences@.len()
    }

    /// Takes in the text of frame `frame_index`. If it yields sentences, the
    /// frame claims the first update of the session unless that is gone.
    pub fn begin(state: &mut SessionState, frame_index: u64, text: &str, now_ns: u64) -> (task: Self)
        requires
            old(state).wf(),
        ensures
            final(state).wf(),
            task.wf(),
            task.frame_index == frame_index,
            text::texts(task.sentences@) == sentence_buffer::handed_out(
                old(state).decoder.sentence_buffer@,
                text@,
                now_ns,
            ),
            final(state).decoder.sentence_buffer@ == sentence_buffer::ingested(
                old(state).decoder.sentence_buffer@,
                text@,
                now_ns,
            ),
            task.claimed_first == claims_first(
                old(state).first_update,
                FirstStep::Local { sentences: task.sentences@.len() },
            ),
            task.was_first_local == !old(state).first_local_update,
            task.is_primary == !old(state).progress.degraded,
            task.is_primary == types::leads(TranscriptSource::Local, old(state).progress.degraded),
            !task.emitted,
            task.reported == 0,
            task.last_id == 0,
            final(state).first_update == first_gone(
                old(state).first_update,
                FirstStep::Local { sentences: task.sentences@.len() },
            ),
            final(state).first_local_update == old(state).first_local_update,
            final(state).progress == old(state).progress,
            final(state).sentences == old(state).sentences,
    {
        let sentences = state.decoder.sentence_buffer.ingest(text, now_ns);
        let claimed_first = !sentences.is_empty() && !state.first_update;
        if !sentences.is_empty() {
            state.first_update = true;
        }
        LocalTask {
            frame_index,
            claimed_first,
            was_first_local: !state.first_local_update,
            is_primary: !state.progress.is_degraded(),
            emitted: false,
            sentences,
            reported: 0,
            last_id: 0,
        }
    }

    /// Registers the next sentence and builds its report, if one is left. Only
    /// the first report of the frame that claimed it is the first update.
    pub fn next_update(&mut self, state: &mut SessionState, latency_ns: u64) -> (r: Option<
        TranscriptionUpdate,
    >)
        requires
            old(self).wf(),
            old(state).wf(),
        ensures
            final(self).wf(),
            final(state).wf(),
            final(state).first_update == old(state).first_update,
            final(state).first_local_update == old(state).first_local_update,
            final(state).progress == old(state).progress,
            final(state).decoder == old(state).decoder,
            old(self).reported >= old(self).sentences@.len() ==> r is None && *final(self) == *old(
                self,
            ) && *final(state) == *old(state),
            old(self).reported < old(self).sentences@.len() ==> {
                &&& *final(self) == (LocalTask {
                    reported: (old(self).reported + 1) as usize,
                    last_id: final(state).sentences.last_id(),
                    ..*old(self)
                })
                &&& old(state).sentences.last_id() < u64::MAX ==> final(state).sentences.last_id()
                    == old(state).sentences.last_id() + 1
                &&& old(state).sentences.last_id() == u64::MAX ==> final(state).sentences.last_id()
                    == u64::MAX
                &&& final(state).sentences.records() == old(state).sentences.records().insert(
                    final(state).sentences.last_id(),
                    sentence_store::fresh_record(),
                )
                &&& r matches Some(u) && types::is_transcript(
                    u,
                    final(state).sentences.last_id(),
                    old(self).sentences@[old(self).reported as int]@,
                    TranscriptSource::Local,
                    old(self).is_primary,
                    true,
                    latency_ns,
                    old(self).frame_index,
                    old(self).claimed_first && old(self).reported == 0,
                )
            },
    {
        if self.reported >= self.sentences.len() {
            return None;
        }
        let sentence_id = state.sentences.register_raw_sentence();
        let update = TranscriptionUpdate {
            payload: UpdatePayload::Transcript(
                TranscriptPayload {
                    sentence_id,
                    text: self.sentences[self.reported].clone(),
                    source: TranscriptSource::Local,
                    is_primary: self.is_primary,
                    within_sla: true,
                },
            ),
            latency_ns,
            frame_index: self.frame_index,
            is_first: self.claimed_first && self.reported == 0,
        };
        self.reported += 1;
        self.last_id = sentence_id;
        Some(update)
    }

    /// Notes that the last report was delivered. With polishing enabled, the
    /// sentence goes to the polisher.
    pub fn delivered(&mut self, polisher_enabled: bool) -> (job: Option<PolishJob>)
        requires
            old(self).wf(),
            old(self).reported > 0,
        ensures
            *final(self) == (LocalTask { emitted: true, ..*old(self) }),
            final(self).wf(),
            !polisher_enabled ==> job is None,
            polisher_enabled ==> (job matches Some(j) && j.sentence_id == old(self).last_id
                && j.text@ == old(self).sentences@[old(self).reported - 1]@ && j.is_primary == old(
                self,
            ).is_primary && j.frame_index == old(self).frame_index),
    {
        self.emitted = true;
        if polisher_enabled {
            Some(
                PolishJob {
                    sentence_id: self.last_id,
                    text: self.sentences[self.reported - 1].clone(),
                    is_primary: self.is_primary,
                    frame_index: self.frame_index,
                },
            )
        } else {
            None
        }
    }

    /// Gives up after a report could not be delivered: claims of the frame are
    /// returned, the local engine counts as degraded, and a notice says so. The
    /// waiting cloud tasks are to be woken.
    pub fn delivery_failed(self, state: &mut SessionState, elapsed_ns: u64, latency_ns: u64) -> (u:
        TranscriptionUpdate)
        ensures
            types::is_notice(
                u,
                NoticeLevel::Warn,
                lag_message(self.frame_index),
                latency_ns,
                self.frame_index,
            ),
            final(state).first_update == if self.claimed_first {
                first_gone(old(state).first_update, FirstStep::Returned)
            } else {
                old(state).first_update
            },
            final(state).first_local_update == (old(state).first_local_update
                && !self.was_first_local),
            final(state).progress == progress::with_degraded(old(state).progress, elapsed_ns),
            final(state).decoder == old(state).decoder,
            final(state).sentences == old(state).sentences,
            old(state).wf() ==> final(state).wf(),
    {
        if self.claimed_first {
            state.first_update = false;
        }
        if self.was_first_local {
            state.first_local_update = false;
        }
        state.progress.mark_degraded(elapsed_ns);
        types::notice(
            NoticeLevel::Warn,
            lag_notice_message(self.frame_index),
            latency_ns,
            self.frame_index,
        )
    }

    /// Ends the frame. If anything was delivered, the frame counts as done and
    /// the waiting cloud tasks are to be woken, which the result says.
    pub fn finish(self, state: &mut SessionState, elapsed_ns: u64) -> (wake: bool)
        ensures
            wake == self.emitted,
            final(state).progress == progress_at_end(
                old(state).progress,
                self.emitted,
                self.frame_index,
                elapsed_ns,
            ),
            final(state).first_update == old(state).first_update,
            final(state).first_local_update == (old(state).first_local_update || (self.emitted
                && self.was_first_local)),
            final(state).progress == if self.emitted {
                progress::with_success(old(state).progress, self.frame_index, elapsed_ns)
            } else {
                old(state).progress
            },
            final(state).decoder == old(state).decoder,
            final(state).sentences == old(state).sentences,
            old(state).wf() ==> final(state).wf(),
    {
        if self.emitted {
            if self.was_first_local {
                state.first_local_update = true;
            }
            state.progress.record_success(self.frame_index, elapsed_ns);
        }
        self.emitted
    }
}

/// The local engine failed on frame `frame_index`: it counts as degraded, and a
/// notice says so. The waiting cloud tasks are to be woken.
pub fn local_engine_failed(
    state: &mut SessionState,
    frame_index: u64,
    elapsed_ns: u64,
    latency_ns: u64,
) -> (u: TranscriptionUpdate)
    ensures
        types::is_notice(
            u,
            NoticeLevel::Error,
            "本地识别异常，已切换云端回退"@,
            latency_ns,
            frame_index,
        ),
        *final(state) == (SessionState {
            progress: progress::with_degraded(old(state).progress, elapsed_ns),
            ..*old(state)
        }),
{
    state.progress.mark_degraded(elapsed_ns);
    types::notice(NoticeLevel::Error, "本地识别异常，已切换云端回退", latency_ns, frame_index)
}

/// The polisher is done with a sentence. A polished text is noted and reported,
/// in time or late; a failure becomes a notice and the raw text stays.
pub fn polish_finished(
    state: &mut SessionState,
    job: &PolishJob,
    outcome: Result<String, String>,
    elapsed_ns: u64,
    deadline_ns: u64,
) -> (u: TranscriptionUpdate)
    requires
        old(state).wf(),
    ensures
        final(state).wf(),
        final(state).first_update == old(state).first_update,
        final(state).first_local_update == old(state).first_local_update,
        final(state).progress == old(state).progress,
        final(state).decoder == old(state).decoder,
        final(state).sentences.last_id() == old(state).sentences.last_id(),
        outcome is Ok ==> (u.payload matches UpdatePayload::Transcript(t) && t.within_sla
            == types::in_time(elapsed_ns, deadline_ns) && t.source == TranscriptSource::Polished),
        match outcome {
            Ok(polished) => {
                &&& types::is_transcript(
                    u,
                    job.sentence_id,
                    polished@,
                    TranscriptSource::Polished,
                    job.is_primary,
                    elapsed_ns <= deadline_ns,
                    elapsed_ns,
                    job.frame_index,
                    false,
                )
                &&& final(state).sentences.records() == if old(
                    state,
                ).sentences.records().contains_key(job.sentence_id) {
                    old(state).sentences.records().insert(
                        job.sentence_id,
                        sentence_store::polished_record(
                            old(state).sentences.records()[job.sentence_id],
                            polished,
                            elapsed_ns <= deadline_ns,
                        ),
                    )
                } else {
                    old(state).sentences.records()
                }
            },
            Err(_) => {
                &&& types::is_notice(
                    u,
                    NoticeLevel::Error,
                    "润色生成失败，已保留原始稿"@,
                    elapsed_ns,
                    job.frame_index,
                )
                &&& final(state).sentences.records() == old(state).sentences.records()
            },
        },
{
    match outcome {
        Ok(polished) => {
            let within_sla = elapsed_ns <= deadline_ns;
            let update = TranscriptionUpdate {
                payload: UpdatePayload::Transcript(
                    TranscriptPayload {
                        sentence_id: job.sentence_id,
                        text: polished.clone(),
                        source: TranscriptSource::Polished,
                        is_primary: job.is_primary,
                        within_sla,
                    },
                ),
                latency_ns: elapsed_ns,
                frame_index: job.frame_index,
                is_first: false,
            };
            let _ = state.sentences.record_polished(job.sentence_id, polished, within_sla);
            update
        },
        Err(_) => types::notice(
            NoticeLevel::Error,
            "润色生成失败，已保留原始稿",
            elapsed_ns,
            job.frame_index,
        ),
    }
}

/// Carries out a command of the user. The selections that took effect are
/// reported; if none did, nothing is.
pub fn handle_command(state: &mut SessionState, command: TranscriptCommand) -> (r: Option<
    TranscriptionUpdate,
>)
    requires
        old(state).wf(),
    ensures
        final(state).wf(),
        final(state).first_update == old(state).first_update,
        final(state).first_local_update == old(state).first_local_update,
        final(state).progress == old(state).progress,
        final(state).decoder == old(state).decoder,
        final(state).sentences.last_id() == old(state).sentences.last_id(),
        ({
            let TranscriptCommand::ApplySelection(selections) = command;
            let applied = sentence_store::selections_applied(
                old(state).sentences.records(),
                selections@,
            );
            &&& final(state).sentences.records() == sentence_store::select_all(
                old(state).sentences.records(),
                selections@,
            )
            &&& match r {
                Some(u) => {
                    &&& applied.len() > 0
                    &&& u.payload matches UpdatePayload::Selection(s) && s.selections@ == applied
                    &&& u.latency_ns == 0
                    &&& u.frame_index == 0
                    &&& !u.is_first
                },
                None => applied.len() == 0,
            }
        }),
{
    match command {
        TranscriptCommand::ApplySelection(selections) => {
            let applied = state.sentences.apply_selection(&selections);
            if applied.is_empty() {
                return None;
            }
            Some(
                TranscriptionUpdate {
                    payload: UpdatePayload::Selection(
                        TranscriptSelectionPayload { selections: applied },
                    ),
                    latency_ns: 0,
                    frame_index: 0,
                    is_first: false,
                },
            )
        },
    }
}

/// The first update of a session is the first sentence of the local engine, if
/// nothing came before it. A text of the cloud engine is first only where the
/// cloud is preferred and a local text was there already, and whatever it is, no
/// later update is first. Only a report that was not delivered gives the place
/// free again.
pub proof fn law_who_comes_first(first_update: bool, sentences: nat, prefer: bool, had_local: bool)
    ensures
        claims_first(first_update, FirstStep::Local { sentences }) <==> !first_update && sentences
            > 0,
        first_gone(first_update, FirstStep::Local { sentences }) <==> first_update || sentences > 0,
        claims_first(first_update, FirstStep::Cloud { prefer_cloud: prefer, had_local }) <==> prefer
            && had_local && !first_update,
        first_gone(first_update, FirstStep::Cloud { prefer_cloud: prefer, had_local }),
        !claims_first(first_update, FirstStep::Returned),
        !first_gone(first_update, FirstStep::Returned),
{
}

/// A delay of the first frame and one of a later frame are told in words of their
/// own.
pub proof fn law_delays_are_told_apart(frame_index: u64)
    ensures
        lag_message(1) == "本地解码延迟异常，已保留回退提示"@,
        frame_index != 1 ==> lag_message(frame_index)
            == "本地解码增量延迟，已保留回退提示"@,
{
}

/// The progress of the local engine at the end of a frame.
pub open spec fn progress_at_end(
    p: LocalProgress,
    emitted: bool,
    frame_index: u64,
    elapsed_ns: u64,
) -> LocalProgress {
    if emitted {
        progress::with_success(p, frame_index, elapsed_ns)
    } else {
        p
    }
}

/// Only a frame of which something was delivered counts as progress: it is then
/// reached, a degradation that is older than it is over, and speech was heard.
pub proof fn law_only_delivered_frames_count(
    p: LocalProgress,
    emitted: bool,
    frame_index: u64,
    elapsed_ns: u64,
)
    ensures
        ({
            let after = progress_at_end(p, emitted, frame_index, elapsed_ns);
            &&& !emitted ==> after == p
            &&& emitted ==> after.last_frame >= frame_index && after.speech_started_ms > 0
            &&& emitted && frame_index > p.last_frame ==> !after.degraded && after.last_frame
                == frame_index
            &&& emitted && frame_index <= p.last_frame ==> after.degraded == p.degraded
                && after.last_frame == p.last_frame
        }),
{
}

} // verus!
