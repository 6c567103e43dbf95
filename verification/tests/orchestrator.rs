use flowwisper::orchestrator::circuit::{CloudCircuit, CLOUD_RETRY_BACKOFF_NS};
use flowwisper::orchestrator::cloud_task::{
    cloud_engine_failed, cloud_transcribed, gate_deadline_ns, gate_passed, gate_step, GateStep,
};
use flowwisper::orchestrator::config::{duration_to_ms, RealtimeSessionConfig};
use flowwisper::orchestrator::engine::{
    build_local_engine, selection_command, FallbackSpeechEngine, LocalEngine,
};
use flowwisper::orchestrator::local_task::{
    handle_command, local_engine_failed, polish_finished, LocalTask, PolishJob, SessionState,
};
use flowwisper::orchestrator::monitor::CadenceMonitor;
use flowwisper::orchestrator::pacing::{frame_in_bounds, SessionLoop};
use flowwisper::orchestrator::polisher::LightweightSentencePolisher;
use flowwisper::orchestrator::progress::{FrameEnergy, LocalProgress};
use flowwisper::orchestrator::sentence_buffer::SentenceBuffer;
use flowwisper::orchestrator::types::{
    variant_label, NoticeLevel, SentenceSelection, SentenceVariant, TranscriptPayload,
    TranscriptSource, TranscriptionUpdate, UpdatePayload,
};
use flowwisper::orchestrator::whisper::{
    auto_download_enabled, download_accepted, model_url, resolve_model, suffix_prefix_overlap,
    window_duration_ms, ModelSource, StreamingState,
};

const MS: u64 = 1_000_000;

fn state() -> SessionState {
    SessionState::new(&RealtimeSessionConfig::default())
}

fn transcript(update: &TranscriptionUpdate) -> &TranscriptPayload {
    match &update.payload {
        UpdatePayload::Transcript(payload) => payload,
        other => panic!("expected a transcript, got {other:?}"),
    }
}

fn notice(update: &TranscriptionUpdate) -> (NoticeLevel, String) {
    match &update.payload {
        UpdatePayload::Notice(notice) => (notice.level, notice.message.clone()),
        other => panic!("expected a notice, got {other:?}"),
    }
}

/// Lets the local engine return `text` for a frame, and delivers everything.
fn local_frame(
    state: &mut SessionState,
    frame_index: u64,
    text: &str,
    elapsed_ns: u64,
    polish: bool,
) -> (Vec<TranscriptionUpdate>, Vec<PolishJob>) {
    let mut task = LocalTask::begin(state, frame_index, text, elapsed_ns);
    let mut updates = Vec::new();
    let mut jobs = Vec::new();
    while let Some(update) = task.next_update(state, elapsed_ns) {
        updates.push(update);
        jobs.extend(task.delivered(polish));
    }
    task.finish(state, elapsed_ns);
    (updates, jobs)
}

#[test]
fn lightweight_polisher_applies_light_edits() {
    let polished =
        LightweightSentencePolisher::normalize("  uh i think i'm heading over around two  ");
    assert_eq!(polished, "I think I'm heading over around two.");
}

#[test]
fn polishing_closes_and_capitalises() {
    assert_eq!(LightweightSentencePolisher::normalize(""), "");
    assert_eq!(LightweightSentencePolisher::normalize("hello."), "Hello.");
    assert_eq!(LightweightSentencePolisher::normalize("really?"), "Really?");
    assert_eq!(LightweightSentencePolisher::normalize("你好"), "你好.");
    assert_eq!(LightweightSentencePolisher::normalize("école"), "École.");
}

#[test]
fn fails_when_whisper_env_missing_without_fallback() {
    let result = build_local_engine(Some(Err("no model".into())), false);
    assert!(
        result.is_err(),
        "expected whisper init failure without fallback"
    );
}

#[test]
fn allows_fallback_when_explicitly_opted_in() {
    assert_eq!(
        build_local_engine(Some(Err("no model".into())), true),
        Ok(LocalEngine::Fallback)
    );
    assert_eq!(
        build_local_engine(Some(Ok(())), false),
        Ok(LocalEngine::Whisper)
    );
    assert_eq!(build_local_engine(None, false), Ok(LocalEngine::Fallback));
}

#[test]
fn the_fallback_engine_numbers_what_it_hears() {
    let mut engine = FallbackSpeechEngine::default();
    assert_eq!(engine.transcribe(false, "0.000"), "");
    assert_eq!(engine.transcribe(true, "0.500"), "frame#1:0.500");
    assert_eq!(engine.transcribe(true, "0.250"), "frame#2:0.250");
}

#[test]
fn emits_first_transcription_within_deadline() {
    let mut state = state();
    let (updates, jobs) = local_frame(&mut state, 1, "hello.", 50 * MS, true);
    assert_eq!(updates.len(), 1);
    let update = &updates[0];
    let payload = transcript(update);
    assert_eq!(payload.text, "hello.");
    assert_eq!(payload.source, TranscriptSource::Local);
    assert!(payload.is_primary);
    assert!(payload.within_sla);
    assert!(payload.sentence_id > 0);
    assert!(update.is_first);
    assert_eq!(update.frame_index, 1);
    assert!(update.latency_ns <= 400 * MS);

    let job = &jobs[0];
    let text = LightweightSentencePolisher::normalize(&job.text);
    let polished = polish_finished(&mut state, job, Ok(text), 60 * MS, 2_500 * MS);
    let polished_payload = transcript(&polished);
    assert_eq!(polished_payload.text, "Hello.");
    assert_eq!(polished_payload.source, TranscriptSource::Polished);
    assert!(polished_payload.is_primary);
    assert!(polished_payload.within_sla);
    assert_eq!(polished_payload.sentence_id, payload.sentence_id);
    assert!(!polished.is_first);
    assert!(polished.latency_ns <= 500 * MS);
}

#[test]
fn polished_transcript_marks_deadline_breach() {
    let mut state = state();
    let (_, jobs) = local_frame(&mut state, 1, "hello.", 20 * MS, true);
    let polished = polish_finished(&mut state, &jobs[0], Ok("hello.".into()), 150 * MS, 50 * MS);
    let payload = transcript(&polished);
    assert_eq!(payload.source, TranscriptSource::Polished);
    assert_eq!(payload.text, "hello.");
    assert!(!payload.within_sla);
    assert!(polished.latency_ns >= 150 * MS);
    assert!(!polished.is_first);
}

#[test]
fn polisher_failure_emits_notice() {
    let mut state = state();
    let (_, jobs) = local_frame(&mut state, 1, "hi.", 20 * MS, true);
    let update = polish_finished(&mut state, &jobs[0], Err("boom".into()), 30 * MS, 2_500 * MS);
    let (level, message) = notice(&update);
    assert_eq!(level, NoticeLevel::Error);
    assert!(message.contains("润色生成失败"));
}

fn select(state: &mut SessionState, ids: &[u64], variant: SentenceVariant) -> Option<Vec<SentenceSelection>> {
    let selections = ids
        .iter()
        .map(|id| SentenceSelection {
            sentence_id: *id,
            active_variant: variant,
        })
        .collect();
    let command = selection_command(selections)?;
    let update = handle_command(state, command)?;
    assert_eq!(update.latency_ns, 0);
    assert!(!update.is_first);
    match update.payload {
        UpdatePayload::Selection(payload) => Some(payload.selections),
        other => panic!("expected selection update, got {other:?}"),
    }
}

#[test]
fn emits_selection_updates_on_revert_commands() {
    let mut state = state();
    let (updates, jobs) = local_frame(&mut state, 1, "hello.", 40 * MS, true);
    let sentence_id = transcript(&updates[0]).sentence_id;
    polish_finished(&mut state, &jobs[0], Ok("Hello.".into()), 50 * MS, 2_500 * MS);

    let revert = select(&mut state, &[sentence_id], SentenceVariant::Raw).expect("selection");
    assert_eq!(revert.len(), 1);
    assert_eq!(revert[0].sentence_id, sentence_id);
    assert_eq!(revert[0].active_variant, SentenceVariant::Raw);

    let restore =
        select(&mut state, &[sentence_id], SentenceVariant::Polished).expect("selection");
    assert_eq!(restore.len(), 1);
    assert_eq!(restore[0].sentence_id, sentence_id);
    assert_eq!(restore[0].active_variant, SentenceVariant::Polished);
}

#[test]
fn acknowledges_multi_sentence_revert_commands() {
    let mut state = state();
    let mut ids = Vec::new();
    for (frame, text) in [(1, "first."), (2, "second.")] {
        let (updates, jobs) = local_frame(&mut state, frame, text, frame * 35 * MS, true);
        ids.push(transcript(&updates[0]).sentence_id);
        polish_finished(&mut state, &jobs[0], Ok("polished.".into()), 25 * MS, 2_500 * MS);
    }
    let applied = select(&mut state, &ids, SentenceVariant::Raw).expect("selection");
    assert_eq!(applied.len(), 2);
    for (expected, actual) in ids.iter().zip(applied.iter()) {
        assert_eq!(*expected, actual.sentence_id);
        assert_eq!(actual.active_variant, SentenceVariant::Raw);
    }
}

#[test]
fn ignores_unknown_sentence_selection() {
    let mut state = state();
    let (updates, _) = local_frame(&mut state, 1, "only.", 35 * MS, false);
    let sentence_id = transcript(&updates[0]).sentence_id;
    assert!(select(&mut state, &[sentence_id + 42], SentenceVariant::Polished).is_none());
    assert!(select(&mut state, &[], SentenceVariant::Raw).is_none());
}

#[test]
fn emits_deadline_notice_when_local_is_late() {
    let mut state = state();
    let mut circuit = CloudCircuit::new();
    let config = RealtimeSessionConfig::default();
    let deadline = gate_deadline_ns(&config, 1);
    assert_eq!(deadline, 400 * MS);
    state.progress.record_frame_energy(2 * MS, FrameEnergy::Speech);
    assert_eq!(
        gate_step(&state.progress, 1, 40 * MS, deadline),
        GateStep::Wait { remaining_ns: 360 * MS }
    );
    assert_eq!(gate_step(&state.progress, 1, 400 * MS, deadline), GateStep::TimedOut);

    let update = gate_passed(&mut state, true, 1, 400 * MS, 400 * MS).expect("notice");
    let (level, message) = notice(&update);
    assert_eq!(level, NoticeLevel::Warn);
    assert!(message.contains("本地解码"));

    let cloud = cloud_transcribed(&mut state, &mut circuit, false, 1, "cloud-fast.".into(), 440 * MS)
        .expect("cloud transcript");
    let payload = transcript(&cloud);
    assert_eq!(payload.text, "cloud-fast.");
    assert_eq!(payload.source, TranscriptSource::Cloud);
    assert!(payload.is_primary);
    assert!(!cloud.is_first);

    let (updates, _) = local_frame(&mut state, 1, "local-slow.", 600 * MS, false);
    let payload = transcript(&updates[0]);
    assert_eq!(payload.text, "local-slow.");
    assert_eq!(payload.source, TranscriptSource::Local);
    assert!(!payload.is_primary);
}

#[test]
fn deadline_notice_latency_reflects_monitor() {
    let mut progress = LocalProgress::new();
    let mut monitor = CadenceMonitor::new();
    progress.record_frame_energy(2 * MS, FrameEnergy::Speech);
    let deadline = 420 * MS;
    let mut elapsed = 0;
    let update = loop {
        elapsed += monitor.wait_ns(200 * MS);
        assert!(elapsed < 520 * MS);
        if let Some(update) = monitor.observe(&mut progress, elapsed, deadline, 200 * MS) {
            break update;
        }
    };
    assert!(update.latency_ns >= 380 * MS);
    assert!(update.latency_ns <= 520 * MS);
    let (level, message) = notice(&update);
    assert_eq!(level, NoticeLevel::Warn);
    assert!(message.contains("本地解码"));
    assert!(progress.is_degraded());
    assert!(monitor
        .observe(&mut progress, elapsed + 25 * MS, deadline, 200 * MS)
        .is_none());
}

#[test]
fn local_recovers_primary_after_cloud_fallback() {
    let mut state = state();
    let mut circuit = CloudCircuit::new();
    state.progress.record_frame_energy(2 * MS, FrameEnergy::Speech);
    gate_passed(&mut state, true, 1, 400 * MS, 400 * MS).expect("notice");
    let fallback =
        cloud_transcribed(&mut state, &mut circuit, false, 1, "cloud-fallback.".into(), 440 * MS)
            .expect("cloud transcript");
    assert!(transcript(&fallback).is_primary);
    let (delayed, _) = local_frame(&mut state, 1, "local-slow.", 650 * MS, false);
    assert_eq!(transcript(&delayed[0]).text, "local-slow.");
    assert!(!transcript(&delayed[0]).is_primary);
    let (recovered, _) = local_frame(&mut state, 2, "local-recovered.", 760 * MS, false);
    assert_eq!(transcript(&recovered[0]).text, "local-recovered.");
    assert!(transcript(&recovered[0]).is_primary);
    let trailing =
        cloud_transcribed(&mut state, &mut circuit, false, 2, "cloud-secondary.".into(), 120 * MS)
            .expect("cloud transcript");
    assert_eq!(transcript(&trailing).text, "cloud-secondary.");
    assert!(!transcript(&trailing).is_primary);
}

#[test]
fn silence_does_not_trigger_cadence_notice() {
    let mut state = state();
    let mut monitor = CadenceMonitor::new();
    state.progress.record_frame_energy(5 * MS, FrameEnergy::Speech);
    let (updates, _) = local_frame(&mut state, 1, "hello.", 40 * MS, false);
    assert_eq!(updates.len(), 1);
    assert_eq!(transcript(&updates[0]).text, "hello.");
    assert_eq!(transcript(&updates[0]).source, TranscriptSource::Local);
    assert!(transcript(&updates[0]).is_primary);
    assert!(monitor.observe(&mut state.progress, 50 * MS, 400 * MS, 200 * MS).is_none());
    for step in 1..6 {
        state.progress.record_frame_energy(step * 100 * MS, FrameEnergy::Silence);
        assert!(
            monitor
                .observe(&mut state.progress, 50 * MS + step * 200 * MS, 400 * MS, 200 * MS)
                .is_none(),
            "silence triggered unexpected cadence notice"
        );
    }
}

#[test]
fn a_stalled_cadence_is_reported_once() {
    let mut progress = LocalProgress::new();
    let mut monitor = CadenceMonitor::new();
    progress.record_frame_energy(5 * MS, FrameEnergy::Speech);
    progress.record_success(1, 40 * MS);
    assert!(monitor.observe(&mut progress, 50 * MS, 400 * MS, 200 * MS).is_none());
    let update = monitor
        .observe(&mut progress, 250 * MS, 400 * MS, 200 * MS)
        .expect("cadence notice");
    assert_eq!(update.latency_ns, 210 * MS);
    assert_eq!(update.frame_index, 1);
    assert!(notice(&update).1.contains("增量"));
    assert!(monitor.observe(&mut progress, 450 * MS, 400 * MS, 200 * MS).is_none());
    progress.record_success(2, 460 * MS);
    assert!(monitor.observe(&mut progress, 650 * MS, 400 * MS, 200 * MS).is_none());
    assert!(monitor.observe(&mut progress, 850 * MS, 400 * MS, 200 * MS).is_some());
}

#[test]
fn emits_notice_when_local_engine_fails() {
    let mut state = state();
    let mut circuit = CloudCircuit::new();
    state.progress.record_frame_energy(2 * MS, FrameEnergy::Speech);
    let update = local_engine_failed(&mut state, 1, 20 * MS, 20 * MS);
    let (level, message) = notice(&update);
    assert_eq!(level, NoticeLevel::Error);
    assert!(message.contains("本地识别异常"));

    assert_eq!(gate_step(&state.progress, 1, 21 * MS, 400 * MS), GateStep::Pass);
    let cloud = cloud_transcribed(&mut state, &mut circuit, false, 1, "cloud-ok.".into(), 60 * MS)
        .expect("cloud transcript");
    assert_eq!(transcript(&cloud).text, "cloud-ok.");
    assert!(transcript(&cloud).is_primary);
    assert!(!cloud.is_first);

    let mut monitor = CadenceMonitor::new();
    let late = monitor
        .observe(&mut state.progress, 500 * MS, 400 * MS, 200 * MS)
        .expect("deadline notice");
    let (level, message) = notice(&late);
    assert_eq!(level, NoticeLevel::Warn);
    assert!(message.contains("本地解码"));
}

#[test]
fn cloud_waits_for_local_each_frame() {
    let mut state = state();
    let mut circuit = CloudCircuit::new();
    let config = RealtimeSessionConfig::default();
    for (frame, local, remote) in
        [(1, "local-one.", "cloud-one."), (2, "local-two.", "cloud-two.")]
    {
        let deadline = gate_deadline_ns(&config, frame);
        assert!(matches!(
            gate_step(&state.progress, frame, 30 * MS, deadline),
            GateStep::Wait { .. }
        ));
        let (updates, _) = local_frame(&mut state, frame, local, frame * 120 * MS, false);
        assert_eq!(updates.len(), 1);
        assert_eq!(transcript(&updates[0]).text, local);
        assert_eq!(transcript(&updates[0]).source, TranscriptSource::Local);
        assert_eq!(updates[0].is_first, frame == 1);
        assert_eq!(updates[0].frame_index, frame);
        assert_eq!(gate_step(&state.progress, frame, 120 * MS, deadline), GateStep::Pass);
        assert!(gate_passed(&mut state, false, frame, 120 * MS, 120 * MS).is_none());
        let cloud =
            cloud_transcribed(&mut state, &mut circuit, false, frame, remote.into(), 150 * MS)
                .expect("cloud transcript");
        assert_eq!(transcript(&cloud).text, remote);
        assert_eq!(transcript(&cloud).source, TranscriptSource::Cloud);
        assert_eq!(cloud.frame_index, frame);
        assert!(!cloud.is_first);
        assert!(!transcript(&cloud).is_primary);
    }
}

#[test]
fn cloud_preferred_sessions_emit_local_first() {
    let mut state = state();
    let mut circuit = CloudCircuit::new();
    let (updates, _) = local_frame(&mut state, 1, "local-one.", 150 * MS, false);
    assert!(updates[0].is_first);
    assert!(transcript(&updates[0]).is_primary);
    let cloud =
        cloud_transcribed(&mut state, &mut circuit, true, 1, "cloud-one.".into(), 190 * MS)
            .expect("cloud transcript");
    assert!(!cloud.is_first);
    assert!(!transcript(&cloud).is_primary);
}

#[test]
fn cloud_preferred_waits_for_whisper_each_frame() {
    let mut state = state();
    let mut circuit = CloudCircuit::new();
    let config = RealtimeSessionConfig::default();
    for (frame, local, cloud) in
        [(1, "local-one.", "cloud-one."), (2, "local-two.", "cloud-two.")]
    {
        let deadline = gate_deadline_ns(&config, frame);
        assert!(matches!(
            gate_step(&state.progress, frame, 40 * MS, deadline),
            GateStep::Wait { .. }
        ));
        let (updates, _) = local_frame(&mut state, frame, local, frame * 130 * MS, false);
        assert_eq!(transcript(&updates[0]).text, local);
        assert_eq!(updates[0].frame_index, frame);
        assert_eq!(gate_step(&state.progress, frame, 130 * MS, deadline), GateStep::Pass);
        let update =
            cloud_transcribed(&mut state, &mut circuit, true, frame, cloud.into(), 170 * MS)
                .expect("cloud transcript");
        assert_eq!(transcript(&update).text, cloud);
        assert_eq!(update.frame_index, frame);
        assert!(!update.is_first);
    }
}

#[test]
fn cadence_timeout_emits_notice_before_cloud_promotion() {
    let mut state = state();
    let mut circuit = CloudCircuit::new();
    let config = RealtimeSessionConfig::default();
    state.progress.record_frame_energy(2 * MS, FrameEnergy::Speech);
    let (first, _) = local_frame(&mut state, 1, "local-fast.", 60 * MS, false);
    assert!(first[0].is_first);
    assert!(transcript(&first[0]).is_primary);
    let second =
        cloud_transcribed(&mut state, &mut circuit, false, 1, "cloud-fast.".into(), 110 * MS)
            .expect("cloud transcript");
    assert!(!second.is_first);
    assert!(!transcript(&second).is_primary);

    let deadline = gate_deadline_ns(&config, 2);
    assert_eq!(deadline, 200 * MS);
    assert_eq!(gate_step(&state.progress, 2, 200 * MS, deadline), GateStep::TimedOut);
    let told = gate_passed(&mut state, true, 2, 320 * MS, 200 * MS).expect("notice");
    let (level, message) = notice(&told);
    assert_eq!(level, NoticeLevel::Warn);
    assert!(message.contains("本地解码"));

    let cloud =
        cloud_transcribed(&mut state, &mut circuit, false, 2, "cloud-follow.".into(), 250 * MS)
            .expect("cloud transcript");
    assert_eq!(transcript(&cloud).text, "cloud-follow.");
    assert!(transcript(&cloud).is_primary);
    assert!(!cloud.is_first);

    let (late, _) = local_frame(&mut state, 2, "local-slow.", 600 * MS, false);
    assert_eq!(transcript(&late[0]).text, "local-slow.");
    assert!(!transcript(&late[0]).is_primary);
    assert!(!late[0].is_first);
}

#[test]
fn cloud_does_not_preempt_when_updates_channel_full() {
    let mut state = state();
    let mut circuit = CloudCircuit::new();
    let mut task = LocalTask::begin(&mut state, 1, "local-backpressure.", 120 * MS);
    let first = task.next_update(&mut state, 120 * MS).expect("update");
    assert_eq!(transcript(&first).text, "local-backpressure.");
    assert_eq!(transcript(&first).source, TranscriptSource::Local);
    assert_eq!(state.progress.last_frame(), 0);
    assert!(matches!(
        gate_step(&state.progress, 1, 150 * MS, 400 * MS),
        GateStep::Wait { .. }
    ));
    assert!(first.is_first);
    task.delivered(false);
    assert!(task.next_update(&mut state, 160 * MS).is_none());
    assert!(task.finish(&mut state, 160 * MS));
    assert_eq!(gate_step(&state.progress, 1, 160 * MS, 400 * MS), GateStep::Pass);
    let second =
        cloud_transcribed(&mut state, &mut circuit, false, 1, "cloud-fast.".into(), 180 * MS)
            .expect("cloud transcript");
    assert_eq!(transcript(&second).text, "cloud-fast.");
    assert_eq!(transcript(&second).source, TranscriptSource::Cloud);
    assert!(!second.is_first);
}

#[test]
fn cloud_path_runs_when_local_is_primary() {
    let mut state = state();
    let mut circuit = CloudCircuit::new();
    let (updates, _) = local_frame(&mut state, 1, "local-first.", 5 * MS, false);
    assert_eq!(transcript(&updates[0]).text, "local-first.");
    assert!(transcript(&updates[0]).is_primary);
    assert!(circuit.allow_attempt(5 * MS));
    let update = cloud_engine_failed(&mut circuit, 1, 25 * MS, 25 * MS).expect("notice");
    let (level, message) = notice(&update);
    assert_eq!(level, NoticeLevel::Warn);
    assert!(message.contains("云端识别异常"));
}

#[test]
fn an_update_that_cannot_be_delivered_leaves_the_lead() {
    let mut state = state();
    let mut task = LocalTask::begin(&mut state, 1, "hello.", 50 * MS);
    let update = task.next_update(&mut state, 50 * MS).expect("update");
    assert!(update.is_first);
    let told = task.delivery_failed(&mut state, 60 * MS, 60 * MS);
    assert_eq!(notice(&told).0, NoticeLevel::Warn);
    assert!(state.progress.is_degraded());
    let (updates, _) = local_frame(&mut state, 2, "again.", 160 * MS, false);
    assert!(updates[0].is_first);
}

#[test]
fn flushes_partial_sentence_when_window_elapses() {
    let mut state = SessionState::new(&RealtimeSessionConfig {
        min_frame_ns: 50 * MS,
        max_frame_ns: 50 * MS,
        first_update_deadline_ns: 5_000 * MS,
        raw_emit_window_ns: 200 * MS,
        enable_polisher: false,
        ..RealtimeSessionConfig::default()
    });
    let (updates, _) = local_frame(&mut state, 1, "hello", 250 * MS, false);
    assert!(updates.is_empty());
    let (updates, _) = local_frame(&mut state, 2, "world", 500 * MS, false);
    let payload = transcript(&updates[0]);
    assert_eq!(payload.text, "hello world");
    assert_eq!(payload.source, TranscriptSource::Local);
    assert!(payload.is_primary);
    assert!(updates[0].is_first);
    assert!(updates[0].latency_ns >= 200 * MS);
}

#[test]
fn retries_cloud_after_backoff() {
    let mut state = state();
    let mut circuit = CloudCircuit::new();
    assert!(circuit.allow_attempt(0));
    let (updates, _) = local_frame(&mut state, 1, "local-one.", 15 * MS, false);
    assert_eq!(transcript(&updates[0]).text, "local-one.");
    assert_eq!(transcript(&updates[0]).source, TranscriptSource::Local);
    assert!(transcript(&updates[0]).is_primary);
    let update = cloud_engine_failed(&mut circuit, 1, 35 * MS, 35 * MS).expect("notice");
    let (level, message) = notice(&update);
    assert_eq!(level, NoticeLevel::Warn);
    assert!(message.contains("云端识别异常"));
    assert!(!circuit.allow_attempt(100 * MS));
    assert!(cloud_engine_failed(&mut circuit, 1, 36 * MS, 36 * MS).is_none());
    let later = 36 * MS + CLOUD_RETRY_BACKOFF_NS + 200 * MS;
    assert!(circuit.allow_attempt(later));
    local_frame(&mut state, 2, "local-two.", later, false);
    let cloud =
        cloud_transcribed(&mut state, &mut circuit, true, 2, "cloud-online.".into(), 20 * MS)
            .expect("cloud transcript");
    assert_eq!(transcript(&cloud).text, "cloud-online.");
    assert_eq!(transcript(&cloud).source, TranscriptSource::Cloud);
    assert!(!transcript(&cloud).is_primary);
    assert!(!cloud.is_first);
    assert!(circuit.is_enabled());
}

#[test]
fn emits_fallback_notice_when_cloud_engine_fails() {
    let mut state = state();
    let mut circuit = CloudCircuit::new();
    let (updates, _) = local_frame(&mut state, 1, "fallback.", 10 * MS, false);
    assert_eq!(transcript(&updates[0]).text, "fallback.");
    assert!(transcript(&updates[0]).is_primary);
    let update = cloud_engine_failed(&mut circuit, 1, 20 * MS, 20 * MS).expect("notice");
    let (level, message) = notice(&update);
    assert_eq!(level, NoticeLevel::Warn);
    assert!(message.contains("云端识别异常"));
}

#[test]
fn sentences_are_cut_at_their_ends() {
    let mut buffer = SentenceBuffer::new(200 * MS);
    assert_eq!(buffer.ingest("One. Two", 0), vec!["One."]);
    assert_eq!(buffer.ingest("three? ", 10 * MS), vec!["Two three?"]);
    assert!(buffer.ingest("", 20 * MS).is_empty());
    assert_eq!(buffer.ingest("你好。", 30 * MS), vec!["你好。"]);
}

#[test]
fn frames_keep_their_distance() {
    let mut pacing = SessionLoop::new(0);
    assert_eq!(pacing.frame_arrived(0), 0);
    pacing.frame_started(0, 100 * MS, 100 * MS);
    assert_eq!(pacing.frame_arrived(30 * MS), 70 * MS);
    assert_eq!(pacing.frame_index, 2);
    assert!(!pacing.finished());
    pacing.close_frames();
    pacing.close_commands();
    assert!(pacing.finished());
    let config = RealtimeSessionConfig::default();
    assert!(frame_in_bounds(&config, 100 * MS));
    assert!(!frame_in_bounds(&config, 201 * MS));
    assert_eq!(config.cadence_ns(), 200 * MS);
    assert_eq!(duration_to_ms(1_999_999), 1);
    assert_eq!(variant_label(SentenceVariant::Raw), "raw");
    assert_eq!(TranscriptSource::Cloud.as_str(), "cloud");
}

#[test]
fn reuses_cached_model_when_present() {
    assert_eq!(resolve_model(None, &None, &None, true), ModelSource::Cached);
    assert_eq!(
        model_url(Some("http://127.0.0.1:1/never-used".into())),
        "http://127.0.0.1:1/never-used"
    );
}

#[test]
fn downloads_model_when_missing() {
    assert_eq!(resolve_model(None, &None, &None, false), ModelSource::Download);
    assert!(model_url(None).ends_with("/ggml-base.en.bin"));
    assert!(download_accepted(200));
    assert!(!download_accepted(404));
}

#[test]
fn the_configured_model_wins() {
    assert_eq!(resolve_model(Some(true), &None, &None, true), ModelSource::Configured);
    assert_eq!(
        resolve_model(Some(false), &None, &None, true),
        ModelSource::ConfiguredMissing
    );
    assert_eq!(
        resolve_model(None, &Some("1".into()), &None, true),
        ModelSource::DownloadDisabled
    );
    assert!(!auto_download_enabled(&None, &Some("0".into())));
    assert!(auto_download_enabled(&None, &Some("true".into())));
}

#[test]
fn repeated_text_is_dropped() {
    let a: Vec<char> = "hello wor".chars().collect();
    let b: Vec<char> = "world".chars().collect();
    assert_eq!(suffix_prefix_overlap(&a, &b), 3);
    let mut streaming: StreamingState<f32> = StreamingState::new();
    assert_eq!(streaming.accept_segments(&vec![" hello".into(), " world".into()]), "hello world");
    assert_eq!(
        streaming.accept_segments(&vec!["world again".into()]).trim(),
        "again"
    );
    assert_eq!(window_duration_ms(16_000), 1_000);
    assert_eq!(window_duration_ms(3), 1);
}

#[test]
fn a_window_is_decoded_once_enough_waits() {
    let mut streaming: StreamingState<f32> = StreamingState::new();
    assert!(streaming.push_frame(&[0.0; 1_000], true).is_none());
    let window = streaming.push_frame(&[1.0; 400], true).expect("enough");
    assert_eq!(window.len(), 1_400);
    streaming.decoded(&window);
    let window = streaming.push_frame(&[2.0; 3_200], false).expect("enough");
    assert_eq!(window.len(), 4_600);
    streaming.decoded(&window);
    assert_eq!(streaming.tail.len(), 3_840);
    assert!(streaming.push_frame(&[0.0; 1_300], false).is_none());
}

#[test]
fn polishing_again_changes_nothing() {
    let sentences = [
        "",
        "   ",
        "uh",
        "\u{1}",
        ", ,",
        "  uh i think i'm heading over around two  ",
        "um , i 'll go ; i'd SAY : yes !",
        "(i've) \u{1}been\u{1} there . uh",
        "42 times i",
        "HMM eh really ?",
    ];
    for sentence in sentences {
        let once = LightweightSentencePolisher::normalize(sentence);
        assert_eq!(LightweightSentencePolisher::normalize(&once), once);
    }
    assert_eq!(
        LightweightSentencePolisher::normalize("um , i 'll go ; i'd SAY : yes !"),
        ", I 'll go; I'd SAY: yes!"
    );
    assert_eq!(LightweightSentencePolisher::normalize("uh"), ".");
}

#[test]
fn everything_spoken_comes_out_in_the_end() {
    let mut state = SessionState::new(&RealtimeSessionConfig {
        raw_emit_window_ns: 200 * MS,
        ..RealtimeSessionConfig::default()
    });
    let spoken = [" well ", "hello. how", " are", " you ?! fine", "", "then; good", "bye"];
    let mut heard = String::new();
    for (index, text) in spoken.iter().enumerate() {
        for sentence in state.decoder.sentence_buffer.ingest(text, index as u64 * 150 * MS) {
            heard.push_str(&sentence);
        }
    }
    for sentence in state.decoder.sentence_buffer.ingest("  ", 2_000 * MS) {
        heard.push_str(&sentence);
    }
    let visible = |text: &str| text.split_whitespace().collect::<String>();
    assert_eq!(visible(&heard), visible(&spoken.concat()));
    assert!(state.decoder.sentence_buffer.ingest("", 9_000 * MS).is_empty());
}
