use std::time::Duration;

use flowwisper::audio::frames::{
    duration_to_samples, sample_words, AudioCaptureStage, WaveformTick, MIN_FRAME_MS,
    SAMPLE_RATE_HZ,
};
use flowwisper::audio::noise::{NoiseDetector, NoiseEvent, SilenceCountdownStatus};
use flowwisper::audio::pipeline::AudioPipeline;
use flowwisper::audio::subscriber::{queue_bounds, Offer, PcmSubscriber};

fn amplitude_to_db(amplitude: f32) -> f32 {
    20.0 * amplitude.abs().max(1e-9).log10()
}

fn rms(samples: &[f32]) -> f32 {
    if samples.is_empty() {
        return 0.0;
    }
    let energy: f32 = samples.iter().map(|s| s * s).sum();
    (energy / samples.len() as f32).sqrt()
}

struct Listener {
    detector: NoiseDetector<f32, f32>,
    baseline: Vec<f32>,
}

impl Listener {
    fn new() -> Self {
        Listener {
            detector: NoiseDetector::new(16_000),
            baseline: Vec::new(),
        }
    }

    fn enter_preroll(&mut self, baseline: Option<f32>) -> Vec<NoiseEvent<f32>> {
        self.baseline.clear();
        self.detector.enter_preroll(baseline)
    }

    fn ingest(&mut self, samples: &[f32], stage: AudioCaptureStage) -> Vec<NoiseEvent<f32>> {
        let share = self.detector.ingest(samples, stage);
        self.baseline.extend_from_slice(&samples[..share.take]);
        let mut events = Vec::new();
        if share.complete {
            let level = amplitude_to_db(rms(&self.baseline));
            events.extend(self.detector.lock_baseline(level));
        }
        while let Some(window) = self.detector.next_window() {
            let baseline = self.detector.baseline_db().expect("locked");
            let window_db = amplitude_to_db(rms(&window));
            let threshold = baseline + 15.0;
            events.extend(self.detector.observe_window(
                window_db,
                threshold,
                window_db >= threshold,
                window_db <= baseline - 10.0,
            ));
        }
        events
    }
}

#[test]
fn uses_provided_baseline_during_preroll() {
    let mut detector: NoiseDetector<f32, f32> = NoiseDetector::new(16_000);
    let events = detector.enter_preroll(Some(-32.0));

    assert_eq!(events.len(), 1);
    match &events[0] {
        NoiseEvent::BaselineEstablished { level_db } => {
            assert!((level_db + 32.0).abs() < f32::EPSILON);
        }
        NoiseEvent::NoiseWarning(_) => panic!("unexpected noise warning"),
        NoiseEvent::SilenceCountdown(_) => panic!("unexpected silence countdown"),
    }
    assert_eq!(detector.baseline_db(), Some(-32.0));
}

#[test]
fn samples_baseline_when_not_provided() {
    let mut detector = Listener::new();
    let events = detector.enter_preroll(None);
    assert!(events.is_empty());

    let samples = vec![0.1_f32; 8_000];
    let events = detector.ingest(&samples, AudioCaptureStage::PreRoll);
    assert_eq!(events.len(), 1, "baseline event not emitted");

    let level = match &events[0] {
        NoiseEvent::BaselineEstablished { level_db } => *level_db,
        NoiseEvent::NoiseWarning(_) => panic!("unexpected noise warning"),
        NoiseEvent::SilenceCountdown(_) => panic!("unexpected silence countdown"),
    };

    assert!(
        (level + 20.0).abs() < 0.5,
        "unexpected baseline level: {level}"
    );
    assert!(detector.detector.baseline_db().is_some());

    let subsequent = detector.ingest(&samples, AudioCaptureStage::PreRoll);
    assert!(subsequent.is_empty(), "duplicate baseline events emitted");
}

fn check_warning(event: &NoiseEvent<f32>) {
    match event {
        NoiseEvent::NoiseWarning(payload) => {
            assert!((payload.persistence_ms as usize) >= 300);
            assert!(payload.window_db - payload.baseline_db >= 15.0);
            assert!((payload.threshold_db - (payload.baseline_db + 15.0)).abs() < 1e-3);
        }
        NoiseEvent::BaselineEstablished { .. } => {
            panic!("expected noise warning, received baseline event");
        }
        NoiseEvent::SilenceCountdown(_) => {
            panic!("unexpected silence countdown event during noise spike");
        }
    }
}

#[test]
fn emits_noise_warning_after_persistent_spike() {
    let mut detector = Listener::new();
    detector.enter_preroll(None);

    let baseline_samples = vec![0.01_f32; 8_000];
    let events = detector.ingest(&baseline_samples, AudioCaptureStage::PreRoll);
    assert_eq!(events.len(), 1, "baseline not established during preroll");

    detector.detector.enter_recording();

    let quiet_window = vec![0.01_f32; 1_600];
    let events = detector.ingest(&quiet_window, AudioCaptureStage::Recording);
    assert!(events.is_empty(), "quiet window should not emit warning");

    let loud_window = vec![0.5_f32; 1_600];

    let events = detector.ingest(&loud_window, AudioCaptureStage::Recording);
    assert!(
        events.is_empty(),
        "first loud window should not yet emit warning"
    );

    let events = detector.ingest(&loud_window, AudioCaptureStage::Recording);
    assert!(
        events.is_empty(),
        "second loud window should accumulate persistence"
    );

    let events = detector.ingest(&loud_window, AudioCaptureStage::Recording);
    assert_eq!(events.len(), 1, "third loud window should emit warning");
    check_warning(&events[0]);

    let events = detector.ingest(&quiet_window, AudioCaptureStage::Recording);
    assert!(
        events.is_empty(),
        "returning to quiet should reset detection"
    );

    for _ in 0..19 {
        let events = detector.ingest(&quiet_window, AudioCaptureStage::Recording);
        assert!(
            events.is_empty(),
            "cooldown windows should suppress events while counting down"
        );
    }

    let events = detector.ingest(&loud_window, AudioCaptureStage::Recording);
    assert!(
        events.is_empty(),
        "cooldown should require persistence to restart"
    );

    let events = detector.ingest(&loud_window, AudioCaptureStage::Recording);
    assert!(
        events.is_empty(),
        "second loud window starts persistence after cooldown"
    );

    let events = detector.ingest(&loud_window, AudioCaptureStage::Recording);
    assert_eq!(
        events.len(),
        1,
        "cooldown elapsed should allow second warning"
    );
    check_warning(&events[0]);
}

#[test]
fn silence_countdown_completes_after_5_seconds() {
    let mut detector = Listener::new();
    detector.enter_preroll(None);

    let baseline_samples = vec![0.05_f32; 8_000];
    let events = detector.ingest(&baseline_samples, AudioCaptureStage::PreRoll);
    assert_eq!(events.len(), 1);

    detector.detector.enter_recording();

    let quiet_window = vec![0.005_f32; 1_600];
    for step in 1..=50 {
        let events = detector.ingest(&quiet_window, AudioCaptureStage::Recording);
        assert_eq!(events.len(), 1, "expected countdown event on step {step}");

        match &events[0] {
            NoiseEvent::SilenceCountdown(payload) => {
                assert_eq!(payload.total_ms, 5_000);
                match payload.status {
                    SilenceCountdownStatus::Started => {
                        assert_eq!(step, 1);
                        assert_eq!(payload.remaining_ms, 4_900);
                    }
                    SilenceCountdownStatus::Tick => {
                        assert!(step > 1 && step < 50);
                        assert!(payload.remaining_ms < 5_000);
                        assert!(payload.remaining_ms > 0);
                    }
                    SilenceCountdownStatus::Completed => {
                        assert_eq!(step, 50);
                        assert_eq!(payload.remaining_ms, 0);
                    }
                    SilenceCountdownStatus::Canceled => {
                        panic!("did not expect cancellation during continuous silence");
                    }
                }
            }
            _ => panic!("unexpected event emitted during silence countdown"),
        }
    }

    let events = detector.ingest(&quiet_window, AudioCaptureStage::Recording);
    assert!(
        events.is_empty(),
        "countdown completion should suppress further events"
    );
}

#[test]
fn silence_countdown_cancels_on_speech_return() {
    let mut detector = Listener::new();
    detector.enter_preroll(None);

    let baseline_samples = vec![0.05_f32; 8_000];
    let events = detector.ingest(&baseline_samples, AudioCaptureStage::PreRoll);
    assert_eq!(events.len(), 1);

    detector.detector.enter_recording();

    let quiet_window = vec![0.005_f32; 1_600];
    for _ in 0..5 {
        let events = detector.ingest(&quiet_window, AudioCaptureStage::Recording);
        assert!(!events.is_empty());
    }

    let loud_window = vec![0.05_f32; 1_600];
    let events = detector.ingest(&loud_window, AudioCaptureStage::Recording);
    assert_eq!(events.len(), 1, "speech return should emit cancellation");

    match &events[0] {
        NoiseEvent::SilenceCountdown(payload) => {
            assert_eq!(payload.status, SilenceCountdownStatus::Canceled);
            assert_eq!(payload.remaining_ms, 5_000);
        }
        _ => panic!("expected silence countdown cancellation event"),
    }

    let events = detector.ingest(&quiet_window, AudioCaptureStage::Recording);
    assert_eq!(events.len(), 1, "new silence should restart countdown");
    match &events[0] {
        NoiseEvent::SilenceCountdown(payload) => {
            assert_eq!(payload.status, SilenceCountdownStatus::Started);
        }
        _ => panic!("expected countdown restart"),
    }
}

fn min_frame() -> usize {
    duration_to_samples(MIN_FRAME_MS, SAMPLE_RATE_HZ) as usize
}

fn pipeline() -> AudioPipeline<f32, f32> {
    AudioPipeline::new()
}

#[test]
fn slow_subscriber_does_not_block_realtime_feed() {
    let mut pipeline = pipeline();
    let mut fast: PcmSubscriber<Vec<f32>> = PcmSubscriber::new(queue_bounds(4, false).max_queue, false);
    let mut slow: PcmSubscriber<Vec<f32>> = PcmSubscriber::new(queue_bounds(1, false).max_queue, false);
    let frame = vec![0.05_f32; min_frame()];

    for _ in 0..20 {
        for chunk in pipeline.push_pcm_frame(&frame) {
            assert!(!fast.must_wait() && !slow.must_wait());
            fast.enqueue(chunk.clone());
            slow.enqueue(chunk);
        }
        let received = fast.next_delivery().expect("fast subscriber receives every frame");
        assert_eq!(received.len(), frame.len());
    }
}

#[test]
fn preserves_order_under_backpressure() {
    let mut pipeline = pipeline();
    let bounds = queue_bounds(2, false);
    let mut subscriber: PcmSubscriber<Vec<f32>> = PcmSubscriber::new(bounds.max_queue, false);

    for marker in 0..3 {
        for frame in pipeline.push_pcm_frame(&vec![marker as f32; min_frame()]) {
            assert!(!subscriber.must_wait());
            subscriber.enqueue(frame);
        }
    }

    for expected in 0..3 {
        let received = subscriber.next_delivery().expect("ordered frame");
        assert_eq!(received.len(), min_frame());
        assert!(received
            .iter()
            .all(|sample| (*sample - expected as f32).abs() < f32::EPSILON));
    }
    assert!(subscriber.next_delivery().is_none());
}

#[test]
fn flushes_pending_tail_on_request() {
    let mut pipeline = pipeline();

    let half_frame = duration_to_samples(MIN_FRAME_MS / 2, SAMPLE_RATE_HZ) as usize;
    let frames = pipeline.push_pcm_frame(&vec![0.2_f32; half_frame]);
    assert!(frames.is_empty());

    let flushed = pipeline.flush_pending(0.0).expect("flush emits a frame");

    assert_eq!(flushed.len(), min_frame());
    assert!(flushed
        .iter()
        .take(half_frame)
        .all(|sample| (*sample - 0.2_f32).abs() < f32::EPSILON));
    assert!(flushed
        .iter()
        .skip(half_frame)
        .all(|sample| sample.abs() < f32::EPSILON));
    assert!(pipeline.flush_pending(0.0).is_none());
}

#[test]
fn drops_oldest_frame_when_queue_is_full() {
    let mut pipeline = pipeline();
    let bounds = queue_bounds(1, false);
    let mut subscriber: PcmSubscriber<Vec<f32>> = PcmSubscriber::new(bounds.max_queue, false);

    let mut dropped = 0;
    for marker in 0..10 {
        for frame in pipeline.push_pcm_frame(&vec![marker as f32; min_frame()]) {
            match subscriber.enqueue(frame) {
                Offer::Queued { dropped: true, .. } => dropped += 1,
                Offer::Queued { .. } => {}
                Offer::Wait => panic!("a lossy subscriber never waits"),
            }
        }
    }

    let mut seen = Vec::new();
    while let Some(frame) = subscriber.next_delivery() {
        assert_eq!(frame.len(), min_frame());
        seen.push(frame[0]);
    }

    assert!(!seen.is_empty(), "no frames observed after backlog");
    assert!(seen.len() < 10, "backlog did not shed frames: {:?}", seen);
    assert!(seen.len() <= 5, "unexpected backlog size: {:?}", seen);
    assert!(
        seen.windows(2).all(|w| w[0] <= w[1]),
        "frames not monotonic: {:?}",
        seen
    );
    assert_eq!(seen.last().copied(), Some(9.0_f32));
    assert_eq!(dropped + seen.len(), 10);
}

#[test]
fn a_lossless_subscriber_makes_its_feed_wait() {
    let bounds = queue_bounds(0, true);
    assert_eq!((bounds.channel, bounds.max_queue), (1, 1));
    let mut subscriber: PcmSubscriber<u8> = PcmSubscriber::new(bounds.max_queue, true);
    assert_eq!(
        subscriber.enqueue(1),
        Offer::Queued { dropped: false, start: true }
    );
    assert!(subscriber.must_wait());
    assert_eq!(subscriber.next_delivery(), Some(1));
    assert!(!subscriber.must_wait());
    assert_eq!(
        subscriber.enqueue(2),
        Offer::Queued { dropped: false, start: false }
    );
    subscriber.delivery_failed();
    assert_eq!(subscriber.next_delivery(), None);
}

#[test]
fn waveform_runs_at_target_cadence() {
    let mut pipeline = pipeline();
    pipeline.push_pcm_frame(&vec![0.2_f32; min_frame()]);

    for _ in 0..3 {
        match pipeline.waveform.tick(0.0) {
            WaveformTick::Frame(frame) => {
                assert_eq!(frame.len(), 512);
                assert!(rms(&frame) > 0.0);
            }
            _ => panic!("waveform frame missing"),
        }
    }
    match pipeline.waveform.tick(0.0) {
        WaveformTick::Frame(frame) => assert_eq!(frame.len(), 512),
        _ => panic!("the rest is filled up"),
    }
    assert!(matches!(pipeline.waveform.tick(0.0), WaveformTick::Nothing));
}

#[test]
fn waveform_flush_emits_tail_frame() {
    let mut pipeline = pipeline();
    let half_frame = duration_to_samples(MIN_FRAME_MS / 2, SAMPLE_RATE_HZ) as usize;
    pipeline.push_pcm_frame(&vec![0.05_f32; half_frame]);

    assert!(matches!(pipeline.waveform.tick(0.0), WaveformTick::Silent));

    pipeline.flush_pending(0.0);

    match pipeline.waveform.tick(0.0) {
        WaveformTick::Frame(frame) => assert!(rms(&frame) > 0.0),
        _ => panic!("waveform frame not emitted after flush"),
    }
}

#[test]
fn noise_baseline_event_emitted_after_sampling() {
    let mut pipeline = pipeline();
    assert!(pipeline.begin_preroll(None).is_empty());

    let frame = vec![0.1_f32; duration_to_samples(500, SAMPLE_RATE_HZ) as usize];
    let mut baseline = Vec::new();
    let mut level = None;
    for chunk in pipeline.push_pcm_frame(&frame) {
        let share = pipeline.listen(&chunk).expect("listening");
        baseline.extend_from_slice(&chunk[..share.take]);
        if share.complete {
            for event in pipeline.noise.lock_baseline(amplitude_to_db(rms(&baseline))) {
                match event {
                    NoiseEvent::BaselineEstablished { level_db } => level = Some(level_db),
                    _ => panic!("expected baseline event"),
                }
            }
        }
    }
    assert!((level.expect("baseline event") + 20.0).abs() < 1.5);
}

#[test]
fn an_idle_pipeline_does_not_listen() {
    let mut pipeline = pipeline();
    assert!(pipeline.listen(&[0.1; 10]).is_none());
    pipeline.begin_preroll(Some(-30.0));
    assert!(pipeline.listen(&[0.1; 10]).is_some());
    pipeline.begin_recording();
    assert_eq!(pipeline.noise.baseline_db(), Some(-30.0));
    pipeline.reset_session();
    assert_eq!(pipeline.noise.baseline_db(), None);
    assert!(pipeline.listen(&[0.1; 10]).is_none());
}

#[test]
fn frames_keep_every_sample() {
    let mut pipeline = pipeline();
    let samples: Vec<f32> = (0..10_001).map(|i| i as f32).collect();
    let mut out = Vec::new();
    for block in samples.chunks(777) {
        for frame in pipeline.push_pcm_frame(block) {
            assert!((1_600..=3_200).contains(&frame.len()));
            out.extend(frame);
        }
    }
    let last = pipeline.flush_pending(0.0).expect("a tail");
    out.extend(last);
    assert_eq!(out[..samples.len()], samples[..]);
}

#[test]
fn durations_are_rounded_to_samples() {
    let mut cases = vec![
        (0_u64, 16_000_u32),
        (1, 44_100),
        (32, 16_000),
        (100, 11_025),
        (5_000, 48_000),
        (1_005, 100),
        (15, 100),
        (1, 500),
        (1, 0),
        (u64::MAX, 0),
        (u64::MAX, 1),
        (u64::MAX, 1_000),
        (u64::MAX, 1_001),
        (u64::MAX, u32::MAX),
        ((1 << 53) * 1_000 + 1, 3),
    ];
    let mut seed: u64 = 1;
    for round in 0..4_000_u64 {
        seed = seed.wrapping_mul(6_364_136_223_846_793_005).wrapping_add(1_442_695_040_888_963_407);
        cases.push((seed >> (round % 64), (seed >> 32) as u32 >> (round % 29)));
        cases.push((round, 500));
        cases.push((round * 5, 100));
    }
    for (ms, rate) in cases {
        let seconds = Duration::from_millis(ms).as_secs_f64();
        let expected = ((seconds * rate as f64).round() as u64).max(1);
        assert_eq!(duration_to_samples(ms, rate), expected, "{ms} ms at {rate}");
    }
    assert_eq!(duration_to_samples(1_005, 100), 100);
}

#[test]
fn raw_bytes_become_samples() {
    let mut bytes = Vec::new();
    for value in [0.5_f32, -1.0, 0.0] {
        bytes.extend_from_slice(&value.to_le_bytes());
    }
    let samples: Vec<f32> = sample_words(&bytes).into_iter().map(f32::from_bits).collect();
    assert_eq!(samples, vec![0.5, -1.0, 0.0]);
    assert!(sample_words(&bytes[..11]).is_empty());
    assert!(sample_words(&[]).is_empty());
}

#[test]
fn a_sound_cancels_a_countdown_only_while_it_runs() {
    let mut detector: NoiseDetector<f32, f32> = NoiseDetector::new(16_000);
    assert!(detector.evaluate_silence(false).is_none());

    let started = detector.evaluate_silence(true).expect("started");
    assert_eq!(started.status, SilenceCountdownStatus::Started);
    assert_eq!((started.total_ms, started.remaining_ms), (5_000, 4_900));
    let cancelled = detector.evaluate_silence(false).expect("cancelled");
    assert_eq!(cancelled.status, SilenceCountdownStatus::Canceled);
    assert_eq!((cancelled.total_ms, cancelled.remaining_ms), (5_000, 5_000));
    assert!(detector.evaluate_silence(false).is_none());

    let mut last = None;
    for _ in 0..50 {
        last = detector.evaluate_silence(true);
    }
    let completed = last.expect("completed");
    assert_eq!(completed.status, SilenceCountdownStatus::Completed);
    assert_eq!(completed.remaining_ms, 0);
    assert!(detector.evaluate_silence(true).is_none());
    assert!(detector.evaluate_silence(false).is_none());

    let again = detector.evaluate_silence(true).expect("started again");
    assert_eq!(again.status, SilenceCountdownStatus::Started);
    assert_eq!((again.total_ms, again.remaining_ms), (5_000, 4_900));
}

#[test]
fn a_pipeline_samples_half_a_second_for_its_baseline() {
    let mut pipeline = pipeline();
    assert!(pipeline.begin_preroll(None).is_empty());
    let share = pipeline.listen(&vec![0.1; 7_999]).expect("listening");
    assert_eq!((share.take, share.complete), (7_999, false));

    pipeline.begin_recording();
    let share = pipeline.listen(&vec![0.1; 10]).expect("listening");
    assert_eq!((share.take, share.complete), (1, true));
    pipeline.noise.lock_baseline(-20.0);
    assert_eq!(pipeline.noise.baseline_db(), Some(-20.0));

    pipeline.reset_session();
    assert_eq!(pipeline.noise.baseline_db(), None);
    let events = pipeline.begin_preroll(Some(-30.0));
    assert!(matches!(
        events.as_slice(),
        [NoiseEvent::BaselineEstablished { level_db }] if *level_db == -30.0
    ));
    let share = pipeline.listen(&vec![0.1; 8_000]).expect("listening");
    assert_eq!((share.take, share.complete), (0, false));

    pipeline.begin_recording();
    let _ = pipeline.listen(&vec![0.1; 1_600]);
    assert_eq!(pipeline.noise.next_window().map(|window| window.len()), Some(1_600));
    assert!(pipeline.noise.next_window().is_none());
}

#[test]
fn order_is_kept_whatever_is_delivered_meanwhile() {
    let mut subscriber = PcmSubscriber::new(3, false);
    let mut delivered = Vec::new();
    let mut lost = 0;
    for frame in 0..20 {
        if let Offer::Queued { dropped: true, .. } = subscriber.enqueue(frame) {
            lost += 1;
        }
        if frame % 3 == 0 {
            delivered.extend(subscriber.next_delivery());
        }
    }
    while let Some(frame) = subscriber.next_delivery() {
        delivered.push(frame);
    }
    assert!(delivered.windows(2).all(|pair| pair[0] < pair[1]));
    assert_eq!(delivered[delivered.len() - 3..], [17, 18, 19]);
    assert_eq!(delivered.len() + lost, 20);
}
