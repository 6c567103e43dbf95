//! What happens to one frame on the cloud engine: it waits until the local
//! engine has had its turn, then its text is reported beside the local one.
use vstd::prelude::*;

use crate::orchestrator::circuit::CloudCircuit;
use crate::orchestrator::config::RealtimeSessionConfig;
use crate::orchestrator::local_task::SessionState;
use crate::orchestrator::progress::LocalProgress;
use crate::orchestrator::types::{
    NoticeLevel, TranscriptPayload, TranscriptSource, TranscriptionUpdate, UpdatePayload,
};
use crate::orchestrator::{circuit, config, local_task, progress, sentence_store, types};

verus! {

/// What a waiting cloud task does next.
#[derive(Debug, Clone, Copy, PartialEq, Eq, Structural)]
pub enum GateStep {
    /// The local engine had its turn, or is known to be degraded.
    Pass,
    /// The local engine used up its time.
    TimedOut,
    /// Wait for news of the local engine, for this long at most.
    Wait { remaining_ns: u64 },
}

/// How long a cloud task waits for the local engine.
pub open spec fn gate_deadline(config: RealtimeSessionConfig, frame_index: u64) -> u64 {
    if frame_index == 1 {
        config.first_update_deadline_ns
    } else {
        config::cadence_of(config)
    }
}

/// How long a cloud task waits for the local engine.
pub fn gate_deadline_ns(config: &RealtimeSessionConfig, frame_index: u64) -> (r: u64)
    ensures
        r == gate_deadline(*config, frame_index),
{
    if frame_index == 1 {
        config.first_update_deadline_ns
    } else {
        config.cadence_ns()
    }
}

/// What a cloud task that was started `waited_ns` ago does next.
pub open spec fn next_step(
    progress: LocalProgress,
    frame_index: u64,
    waited_ns: u64,
    deadline_ns: u64,
) -> GateStep {
    if progress.last_frame >= frame_index || progress.degraded {
        GateStep::Pass
    } else if waited_ns >= deadline_ns {
        GateStep::TimedOut
    } else {
        GateStep::Wait { remaining_ns: (deadline_ns - waited_ns) as u64 }
    }
}

/// Decides whether a cloud task that was started `waited_ns` ago goes on.
pub fn gate_step(
    progress: &LocalProgress,
    frame_index: u64,
    waited_ns: u64,
    deadline_ns: u64,
) -> (r: GateStep)
    ensures
        r == next_step(*progress, frame_index, waited_ns, deadline_ns),
{
    if progress.last_frame() >= frame_index || progress.is_degraded() {
        GateStep::Pass
    } else if waited_ns >= deadline_ns {
        GateStep::TimedOut
    } else {
        GateStep::Wait { remaining_ns: deadline_ns - waited_ns }
    }
}

/// Whether a missed deadline counts against the local engine: only while
/// someone speaks, and only once.
pub open spec fn lag_counts(progress: LocalProgress, timed_out: bool) -> bool {
    timed_out && progress.speech_started_ms != 0 && progress.speech_active && !progress.degraded
}

/// The wait for the local engine is over. A missed deadline that counts degrades
/// it and is told in a notice; the other waiting cloud tasks are then to be
/// woken.
pub fn gate_passed(
    state: &mut SessionState,
    timed_out: bool,
    frame_index: u64,
    elapsed_ns: u64,
    latency_ns: u64,
) -> (r: Option<TranscriptionUpdate>)
    ensures
        r is Some <==> lag_counts(old(state).progress, timed_out),
        r matches Some(u) ==> types::is_notice(
            u,
            NoticeLevel::Warn,
            local_task::lag_message(frame_index),
            latency_ns,
            frame_index,
        ),
        *final(state) == (SessionState {
            progress: if lag_counts(old(state).progress, timed_out) {
                progress::with_degraded(old(state).progress, elapsed_ns)
            } else {
                old(state).progress
            },
            ..*old(state)
        }),
{
    let counts = timed_out && state.progress.has_speech_started()
        && state.progress.is_speech_active();
    if counts && !state.progress.is_degraded() {
        state.progress.mark_degraded(elapsed_ns);
        Some(
            types::notice(
                NoticeLevel::Warn,
                local_task::lag_notice_message(frame_index),
                latency_ns,
                frame_index,
            ),
        )
    } else {
        None
    }
}

/// The cloud engine returned `text` for frame `frame_index`. An empty text
/// changes nothing. Any other closes the circuit and is registered and
/// reported; it leads while the local engine is degraded. It is the first
/// update only if the cloud is preferred, a local update came before and no
/// update was first yet.
pub fn cloud_transcribed(
    state: &mut SessionState,
    circuit: &mut CloudCircuit,
    prefer_cloud: bool,
    frame_index: u64,
    text: String,
    latency_ns: u64,
) -> (r: Option<TranscriptionUpdate>)
    requires
        old(state).wf(),
    ensures
        final(state).wf(),
        final(state).first_local_update == old(state).first_local_update,
        final(state).progress == old(state).progress,
        final(state).decoder == old(state).decoder,
        r matches Some(u) ==> (u.payload matches UpdatePayload::Transcript(t) && t.is_primary
            == types::leads(TranscriptSource::Cloud, old(state).progress.degraded)),
        text@.len() == 0 ==> r is None && *final(state) == *old(state) && *final(circuit) == *old(
            circuit,
        ),
        text@.len() > 0 ==> {
            &&& *final(circuit) == (CloudCircuit { enabled: true, next_retry_ms: 0 })
            &&& final(state).first_update == local_task::first_gone(
                old(state).first_update,
                local_task::FirstStep::Cloud {
                    prefer_cloud,
                    had_local: old(state).first_local_update,
                },
            )
            &&& old(state).sentences.last_id() < u64::MAX ==> final(state).sentences.last_id()
                == old(state).sentences.last_id() + 1
            &&& old(state).sentences.last_id() == u64::MAX ==> final(state).sentences.last_id()
                == u64::MAX
            &&& final(state).sentences.records() == old(state).sentences.records().insert(
                final(state).sentences.last_id(),
                sentence_store::fresh_record(),
            )
            &&& r matches Some(u) && types::is_transcript(
                u,
                final(state).sentences.last_id(),
                text@,
                TranscriptSource::Cloud,
                old(state).progress.degraded,
                true,
                latency_ns,
                frame_index,
                local_task::claims_first(
                    old(state).first_update,
                    local_task::FirstStep::Cloud {
                        prefer_cloud,
                        had_local: old(state).first_local_update,
                    },
                ),
            )
        },
{
    if text.as_str().is_empty() {
        return None;
    }
    circuit.mark_success();
    let is_first = prefer_cloud && state.first_local_update && !state.first_update;
    state.first_update = true;
    let sentence_id = state.sentences.register_raw_sentence();
    Some(
        TranscriptionUpdate {
            payload: UpdatePayload::Transcript(
                TranscriptPayload {
                    sentence_id,
                    text,
                    source: TranscriptSource::Cloud,
                    is_primary: state.progress.is_degraded(),
                    within_sla: true,
                },
            ),
            latency_ns,
            frame_index,
            is_first,
        },
    )
}

/// The cloud engine failed on frame `frame_index`: the circuit opens, and a
/// notice says so if it was closed.
pub fn cloud_engine_failed(
    circuit: &mut CloudCircuit,
    frame_index: u64,
    elapsed_ns: u64,
    latency_ns: u64,
) -> (r: Option<TranscriptionUpdate>)
    ensures
        *final(circuit) == circuit::tripped(
            *old(circuit),
            elapsed_ns,
            circuit::CLOUD_RETRY_BACKOFF_NS,
        ),
        r is Some <==> old(circuit).enabled,
        r matches Some(u) ==> types::is_notice(
            u,
            NoticeLevel::Warn,
            "云端识别异常，已回退至本地结果"@,
            latency_ns,
            frame_index,
        ),
{
    if circuit.trip(elapsed_ns, circuit::CLOUD_RETRY_BACKOFF_NS) {
        Some(
            types::notice(
                NoticeLevel::Warn,
                "云端识别异常，已回退至本地结果",
                latency_ns,
                frame_index,
            ),
        )
    } else {
        None
    }
}

/// The cloud never goes ahead of a local engine that keeps up: a cloud task goes
/// on only once the local engine has reported the frame, is known to lag, or has
/// used up its time, and it never waits beyond that time.
pub proof fn law_cloud_waits_for_local(
    progress: LocalProgress,
    frame_index: u64,
    waited_ns: u64,
    deadline_ns: u64,
)
    ensures
        match next_step(progress, frame_index, waited_ns, deadline_ns) {
            GateStep::Pass => progress.last_frame >= frame_index || progress.degraded,
            GateStep::TimedOut => waited_ns >= deadline_ns && progress.last_frame < frame_index
                && !progress.degraded,
            GateStep::Wait { remaining_ns } => remaining_ns > 0 && waited_ns + remaining_ns
                == deadline_ns && progress.last_frame < frame_index && !progress.degraded,
        },
{
}

/// Once the local engine has reported a frame, the cloud tasks of that frame and
/// of all before it go on at once and hold nothing against the local engine.
pub proof fn law_local_report_releases_the_cloud(
    progress: LocalProgress,
    reported: u64,
    elapsed_ns: u64,
    frame_index: u64,
    waited_ns: u64,
    deadline_ns: u64,
)
    requires
        frame_index <= reported,
    ensures
        next_step(
            progress::with_success(progress, reported, elapsed_ns),
            frame_index,
            waited_ns,
            deadline_ns,
        ) == GateStep::Pass,
{
}

/// The first frame may take until the deadline for the first update, every later
/// one a cadence.
pub proof fn law_first_frame_has_its_own_deadline(
    config: RealtimeSessionConfig,
    frame_index: u64,
    timed_out: bool,
    progress: LocalProgress,
)
    ensures
        gate_deadline(config, 1) == config.first_update_deadline_ns,
        frame_index != 1 ==> gate_deadline(config, frame_index) >= config.min_frame_ns,
        frame_index != 1 ==> gate_deadline(config, frame_index) == gate_deadline(config, 2),
        frame_index != 1 && config.max_frame_ns >= config.min_frame_ns && config.max_frame_ns > 0
            ==> gate_deadline(config, frame_index) == config.max_frame_ns,
        !timed_out ==> !lag_counts(progress, timed_out),
        timed_out ==> (lag_counts(progress, timed_out) <==> progress.speech_active
            && progress.speech_started_ms > 0 && !progress.degraded),
{
    config::law_cadence_is_that_of_the_longest_frame(config);
}

} // verus!
