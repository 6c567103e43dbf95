use flowwisper::desktop::session::{
    preroll_phases, CoreAutoStopReason, CoreSessionAutoStop, CoreSessionEvent,
    CoreSessionNoiseWarning, CoreSessionSilenceCountdown, CoreSilenceCancellationReason,
    CoreSilenceCountdownState, FallbackStrategy, InsertionFailure, InsertionResult,
    PublishActionKind, PublishNotice, PublishNoticeLevel, PublishStatus, PublishStrategy,
    PublishingUpdate, SessionAutoStopReason, SessionRealtimeEvent, SessionSilenceCancellationReason,
    SessionSilenceCountdownState, SessionStateManager, TranscriptNotice, TranscriptNoticeLevel,
    TranscriptSentence, TranscriptSentenceSelection, TranscriptSourceVariant,
    TranscriptStreamEvent, TranscriptStreamPayload, TranscriptStreamSource,
    MAX_COMPLETION_HISTORY, MAX_SESSION_EVENT_HISTORY, MAX_TIMELINE, MAX_TRANSCRIPT_HISTORY,
};

fn manager() -> SessionStateManager<f32> {
    SessionStateManager::new()
}

#[test]
fn retains_latest_transcript_events() {
    let mut manager = manager();

    for idx in 0..130u64 {
        let mut event = TranscriptStreamEvent::new(
            idx,
            42,
            idx == 0,
            TranscriptStreamPayload::Transcript {
                sentence: TranscriptSentence {
                    sentence_id: idx,
                    text: format!("Sentence #{idx}"),
                    source: TranscriptStreamSource::Local,
                    is_primary: true,
                    within_sla: true,
                },
            },
        );
        event.timestamp_ms = idx as u128;
        manager.record_transcript_event(event);
    }

    let log = manager.transcript_log();
    assert_eq!(log.len(), MAX_TRANSCRIPT_HISTORY);
    assert_eq!(log.first().unwrap().frame_index, 10);
    assert_eq!(log.last().unwrap().frame_index, 129);
}

#[test]
fn transcript_event_new_populates_timestamp() {
    let payload = TranscriptStreamPayload::Notice {
        notice: TranscriptNotice {
            level: TranscriptNoticeLevel::Info,
            message: "ok".into(),
        },
    };
    let event = TranscriptStreamEvent::new(7, 15, false, payload);
    assert!(event.timestamp_ms > 0);
    assert_eq!(event.frame_index, 7);
    assert_eq!(event.latency_ms, 15);
    assert!(!event.is_first);
}

#[test]
fn publishing_history_retains_latest_updates() {
    let mut manager = manager();

    for idx in 0..(MAX_COMPLETION_HISTORY + 10) as u8 {
        let update = PublishingUpdate::new(
            "session".into(),
            idx,
            PublishStrategy::DirectInsert,
            Some(FallbackStrategy::ClipboardCopy),
            idx % 2 == 0,
            Some(format!("attempt #{idx}")),
        );
        manager.record_publishing_update(update);
    }

    let history = manager.publishing_history();
    assert_eq!(history.len(), MAX_COMPLETION_HISTORY);
    assert_eq!(history.first().unwrap().attempt as usize, 10);
    assert!(history.last().unwrap().timestamp_ms > 0);
}

#[test]
fn insertion_history_retains_latest_results() {
    let mut manager = manager();

    for idx in 0..(MAX_COMPLETION_HISTORY + 5) as u8 {
        let result = InsertionResult::new(
            "session".into(),
            PublishStatus::Failed,
            PublishStrategy::DirectInsert,
            idx,
            Some(FallbackStrategy::NotifyOnly),
            Some(InsertionFailure {
                code: Some("timeout".into()),
                message: format!("attempt {idx} timed out"),
            }),
            Some("undo".into()),
        );
        manager.record_insertion_result(result);
    }

    let history = manager.insertion_history();
    assert_eq!(history.len(), MAX_COMPLETION_HISTORY);
    assert_eq!(history.first().unwrap().attempts as usize, 5);
    assert!(history.iter().any(|entry| entry.failure.is_some()));
}

#[test]
fn publish_notice_history_retains_latest_entries() {
    let mut manager = manager();

    for idx in 0..(MAX_COMPLETION_HISTORY + 3) as u8 {
        let notice = PublishNotice::new(
            "session".into(),
            PublishActionKind::Copy,
            if idx % 2 == 0 {
                PublishNoticeLevel::Info
            } else {
                PublishNoticeLevel::Warn
            },
            format!("notice {idx}"),
            None,
        );
        manager.record_publish_notice(notice);
    }

    let history = manager.publish_notice_history();
    assert_eq!(history.len(), MAX_COMPLETION_HISTORY);
    assert_eq!(history.first().unwrap().message, "notice 3");
    assert!(history
        .iter()
        .any(|entry| entry.level == PublishNoticeLevel::Warn));
}

#[test]
fn session_event_history_retains_latest_entries() {
    let mut manager = manager();

    for idx in 0..(MAX_SESSION_EVENT_HISTORY + 5) as u32 {
        let event = SessionRealtimeEvent::NoiseWarning {
            timestamp_ms: idx as u128,
            baseline_db: 30.0_f32,
            threshold_db: 45.0,
            level_db: 60.0,
            persistence_ms: 300,
        };
        manager.record_session_event(event);
    }

    let history = manager.session_event_history();
    assert_eq!(history.len(), MAX_SESSION_EVENT_HISTORY);
    assert!(matches!(
        history.last().unwrap(),
        SessionRealtimeEvent::NoiseWarning { level_db, .. } if (*level_db - 60.0).abs() < f32::EPSILON
    ));
}

#[test]
fn session_realtime_event_validation_rejects_invalid_countdown() {
    let invalid: SessionRealtimeEvent<f32> = SessionRealtimeEvent::SilenceCountdown {
        timestamp_ms: 1,
        total_ms: 5000,
        remaining_ms: 6000,
        state: SessionSilenceCountdownState::Tick,
        cancel_reason: None,
    };

    assert!(invalid.validate(true).is_err());

    let missing_reason: SessionRealtimeEvent<f32> = SessionRealtimeEvent::SilenceCountdown {
        timestamp_ms: 2,
        total_ms: 5000,
        remaining_ms: 2000,
        state: SessionSilenceCountdownState::Canceled,
        cancel_reason: None,
    };

    assert!(missing_reason.validate(true).is_err());
}

#[test]
fn session_realtime_event_from_core_event_maps_fields() {
    let warning = CoreSessionNoiseWarning {
        baseline_db: 20.0_f32,
        threshold_db: 35.0,
        level_db: 52.0,
        persistence_ms: 250,
    };
    let countdown = CoreSessionSilenceCountdown {
        total_ms: 5000,
        remaining_ms: 3000,
        state: CoreSilenceCountdownState::Started,
        cancel_reason: None,
    };
    let auto_stop = CoreAutoStopReason::SilenceTimeout;

    match SessionRealtimeEvent::from_core_event(CoreSessionEvent::NoiseWarning(warning)) {
        SessionRealtimeEvent::NoiseWarning {
            baseline_db,
            threshold_db,
            level_db,
            persistence_ms,
            ..
        } => {
            assert!((baseline_db - 20.0).abs() < f32::EPSILON);
            assert!((threshold_db - 35.0).abs() < f32::EPSILON);
            assert!((level_db - 52.0).abs() < f32::EPSILON);
            assert_eq!(persistence_ms, 250);
        }
        _ => panic!("expected noise warning"),
    }

    let told: SessionRealtimeEvent<f32> =
        SessionRealtimeEvent::from_core_event(CoreSessionEvent::SilenceCountdown(countdown));
    match told {
        SessionRealtimeEvent::SilenceCountdown {
            total_ms,
            remaining_ms,
            state,
            cancel_reason,
            ..
        } => {
            assert_eq!(total_ms, 5000);
            assert_eq!(remaining_ms, 3000);
            assert_eq!(state, SessionSilenceCountdownState::Started);
            assert!(cancel_reason.is_none());
        }
        _ => panic!("expected silence countdown"),
    }

    let told: SessionRealtimeEvent<f32> = SessionRealtimeEvent::from_core_event(
        CoreSessionEvent::AutoStop(CoreSessionAutoStop { reason: auto_stop }),
    );
    match told {
        SessionRealtimeEvent::AutoStop { reason, .. } => {
            assert_eq!(reason, SessionAutoStopReason::SilenceTimeout);
        }
        _ => panic!("expected auto-stop"),
    }
}

#[test]
fn a_canceled_countdown_keeps_its_reason() {
    let told: SessionRealtimeEvent<f32> =
        SessionRealtimeEvent::from_core_event_at(
            CoreSessionEvent::SilenceCountdown(CoreSessionSilenceCountdown {
                total_ms: 5000,
                remaining_ms: 5000,
                state: CoreSilenceCountdownState::Canceled,
                cancel_reason: Some(CoreSilenceCancellationReason::SpeechDetected),
            }),
            77,
        );
    match &told {
        SessionRealtimeEvent::SilenceCountdown {
            timestamp_ms,
            cancel_reason,
            ..
        } => {
            assert_eq!(*timestamp_ms, 77);
            assert_eq!(
                *cancel_reason,
                Some(SessionSilenceCancellationReason::SpeechDetected)
            );
        }
        _ => panic!("expected silence countdown"),
    }
    assert!(told.validate(true).is_ok());
}

#[test]
fn events_with_bad_levels_are_not_kept() {
    let mut manager = manager();
    let event = SessionRealtimeEvent::NoiseWarning {
        timestamp_ms: 1,
        baseline_db: 30.0_f32,
        threshold_db: 45.0,
        level_db: f32::NAN,
        persistence_ms: 300,
    };
    assert!(manager.accept_session_event(event, false).is_err());
    assert!(manager.session_event_history().is_empty());
    let event = SessionRealtimeEvent::AutoStop {
        timestamp_ms: 2,
        reason: SessionAutoStopReason::SilenceTimeout,
    };
    assert!(manager.accept_session_event(event, true).is_ok());
    assert_eq!(manager.session_event_history().len(), 1);
}

#[test]
fn the_timeline_keeps_the_latest_phases() {
    let mut manager = manager();
    assert_eq!(manager.snapshot().phase, "Idle");
    for idx in 0..MAX_TIMELINE + 4 {
        manager.transition(format!("Phase{idx}"), "detail".into());
    }
    let timeline = manager.timeline();
    assert_eq!(timeline.len(), MAX_TIMELINE);
    assert_eq!(
        timeline.last().unwrap().phase,
        format!("Phase{}", MAX_TIMELINE + 3)
    );
    assert_eq!(
        manager.snapshot().phase,
        format!("Phase{}", MAX_TIMELINE + 3)
    );
}

#[test]
fn a_blank_preroll_is_left_out() {
    assert_eq!(preroll_phases("a".into(), "  ".into()).len(), 1);
    let both = preroll_phases("a".into(), "b".into());
    assert_eq!(both.len(), 2);
    assert_eq!(both[1].0, "PreRoll");
}

#[test]
fn an_empty_selection_is_no_event() {
    assert!(TranscriptStreamEvent::of_selections(vec![]).is_none());
    let event = TranscriptStreamEvent::of_selections(vec![TranscriptSentenceSelection {
        sentence_id: 3,
        active_variant: TranscriptSourceVariant::Raw,
    }])
    .expect("event");
    assert_eq!(event.frame_index, 0);
    match event.payload {
        TranscriptStreamPayload::Selection { selections } => assert_eq!(selections.len(), 1),
        _ => panic!("expected a selection"),
    }
}
