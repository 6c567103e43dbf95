use flowwisper::desktop::devices::{
    check_sample_format, classify_device, list_devices, resolve_device, resolved_id,
    sanitize_identifier, select_stream_config, RateRange, SampleFormat, StreamChoice,
    TARGET_SAMPLE_RATE,
};
use flowwisper::desktop::dsp::{DspProcessor, FrameWindowSetting, SUBFRAME_SIZE};
use flowwisper::desktop::meter::{
    assess_noise, channel_frames, compute_meter_window, waveform_bars, MeterCollector, NoiseReading,
};
use flowwisper::desktop::wave::encode_wave;

const VAD_ACTIVATE_THRESHOLD: f32 = 0.035;
const VAD_DEACTIVATE_THRESHOLD: f32 = 0.02;

fn read(collector: &mut MeterCollector<f32>, samples: &[f32]) -> (f32, f32, bool) {
    let peak = samples.iter().copied().fold(0.0_f32, |acc, value| acc.max(value));
    let sum_sq: f32 = samples.iter().map(|value| value * value).sum();
    let rms = (sum_sq / samples.len() as f32).sqrt();
    let active = collector.settle(rms >= VAD_DEACTIVATE_THRESHOLD, rms >= VAD_ACTIVATE_THRESHOLD);
    (peak, rms, active)
}

fn push(collector: &mut MeterCollector<f32>, amplitude: f32) -> Option<(f32, f32, bool)> {
    let window = collector.push(amplitude)?;
    Some(read(collector, &window))
}

fn flush(collector: &mut MeterCollector<f32>) -> Option<(f32, f32, bool)> {
    let window = collector.flush()?;
    Some(read(collector, &window))
}

#[test]
fn meter_collector_emits_on_window() {
    let mut collector = MeterCollector::with_window(4);
    assert!(push(&mut collector, 0.1).is_none());
    assert!(push(&mut collector, 0.2).is_none());
    assert!(push(&mut collector, 0.3).is_none());
    let frame = push(&mut collector, 0.4).expect("collector should emit once window is filled");
    assert!((frame.0 - 0.4).abs() < f32::EPSILON);
    let expected_rms =
        ((0.1_f32.powi(2) + 0.2_f32.powi(2) + 0.3_f32.powi(2) + 0.4_f32.powi(2)) / 4.0).sqrt();
    assert!((frame.1 - expected_rms).abs() < 1e-6);
    assert!(frame.2, "rms above threshold should mark VAD active");
}

#[test]
fn meter_collector_flushes_remaining_samples() {
    let mut collector = MeterCollector::with_window(5);
    push(&mut collector, 0.25);
    push(&mut collector, 0.5);
    let frame = flush(&mut collector).expect("flush should emit even if window not filled");
    assert!((frame.0 - 0.5).abs() < f32::EPSILON);
    let expected_rms = ((0.25_f32.powi(2) + 0.5_f32.powi(2)) / 2.0).sqrt();
    assert!((frame.1 - expected_rms).abs() < 1e-6);
    assert!(
        frame.2,
        "collector flush above threshold should keep VAD active"
    );
    assert!(flush(&mut collector).is_none(), "flush should clear buffer");
}

#[test]
fn meter_collector_applies_vad_hysteresis() {
    let mut collector = MeterCollector::with_window(4);
    assert!(push(&mut collector, 0.05).is_none());
    assert!(push(&mut collector, 0.06).is_none());
    assert!(push(&mut collector, 0.07).is_none());
    let frame = push(&mut collector, 0.08).expect("collector should emit when window fills");
    assert!(frame.2, "loud window should activate VAD");

    push(&mut collector, 0.005);
    push(&mut collector, 0.004);
    push(&mut collector, 0.003);
    let frame = flush(&mut collector).expect("flush should emit even if VAD drops");
    assert!(
        !frame.2,
        "window below release threshold should deactivate VAD"
    );
}

#[test]
fn a_level_between_the_thresholds_changes_nothing() {
    let mut collector: MeterCollector<f32> = MeterCollector::with_window(1);
    assert!(!collector.settle(true, false));
    assert!(collector.settle(true, true));
    assert!(collector.settle(true, false));
    assert!(!collector.settle(false, false));
}

fn frame_count(sample_rate: u32) -> usize {
    let mut collector = MeterCollector::new(sample_rate);
    let mut frames = 0;
    for _ in 0..sample_rate {
        if push(&mut collector, 0.05).is_some() {
            frames += 1;
        }
    }
    frames
}

#[test]
fn meter_collector_limits_frame_rate() {
    for rate in [48_000_u32, 44_100_u32, 16_000_u32] {
        let frames = frame_count(rate);
        assert!(
            (30..=60).contains(&frames),
            "expected frame count within 30-60fps window for {rate}Hz, got {frames}"
        );
    }
}

#[test]
fn the_meter_window_is_rounded_like_a_float() {
    let mut rates = vec![
        0_u32, 1, 22, 23, 45, 67, 68, 8_000, 11_025, 16_000, 22_050, 44_100, 48_000, 96_000,
        192_000, 11_796_501, 11_796_502, 11_796_503, 16_777_215, 16_777_216, 16_777_217,
        16_777_219, 188_743_691, 188_743_692, 377_487_361, 2_147_483_647, u32::MAX,
    ];
    let mut rate: u32 = 1;
    for _ in 0..2_000 {
        rate = rate.wrapping_mul(1_664_525).wrapping_add(1_013_904_223);
        rates.push(rate);
        rates.push(rate >> 7);
    }
    for rate in rates {
        let expected = if rate == 0 {
            1
        } else {
            ((rate as f32 / 45.0).round() as usize).max(1)
        };
        assert_eq!(compute_meter_window(rate), expected, "{rate}");
    }
    assert_eq!(compute_meter_window(11_796_502), 262_145);
}

fn reading(noise_floor_db: f32, snr_db: f32) -> NoiseReading {
    NoiseReading {
        noise_floor_db: format!("{noise_floor_db:.1}"),
        floor_too_high: noise_floor_db > -40.0,
        snr_db: format!("{snr_db:.1}"),
        snr_too_low: snr_db < 10.0,
    }
}

#[test]
fn assess_noise_flags_excessive_noise() {
    let (alert, hint) = assess_noise(&reading(-30.0, 4.0));
    assert!(
        alert,
        "noise alert should be raised when thresholds exceeded"
    );
    let detail = hint.expect("hint should be provided");
    assert!(
        detail.contains("-40"),
        "detail should reference noise floor limit"
    );
    assert!(
        detail.contains("10"),
        "detail should reference SNR threshold"
    );
    assert_eq!(
        detail,
        "检测到噪音问题：环境噪声 -30.0 dBFS 高于推荐上限 -40.0 dBFS；信噪比 4.0 dB 低于推荐值 10.0 dB。请尝试切换到更安静的环境或启用强降噪模式。"
    );
}

#[test]
fn assess_noise_accepts_quiet_environment() {
    let (alert, hint) = assess_noise(&reading(-55.0, 18.0));
    assert!(!alert, "quiet environments should not trigger alerts");
    assert!(hint.is_none(), "no hint necessary when thresholds are met");
}

#[test]
fn each_noise_complaint_stands_alone() {
    let (alert, hint) = assess_noise(&reading(-30.0, 18.0));
    assert!(alert);
    assert!(!hint.expect("hint").contains("信噪比"));
    let (alert, hint) = assess_noise(&reading(-55.0, 4.0));
    assert!(alert);
    assert!(!hint.expect("hint").contains("环境噪声"));
}

fn process_block(processor: &mut DspProcessor<f32>, input: &[f32]) -> Vec<f32> {
    let mut output = Vec::new();
    for frame in processor.subframes(input) {
        output.extend(processor.accept(&frame));
    }
    output
}

fn flush_dsp(processor: &mut DspProcessor<f32>) -> Vec<f32> {
    if let Some(frame) = processor.flush_subframe() {
        processor.accept_last(&frame);
    }
    processor.flush_window()
}

#[test]
fn dsp_processor_emits_default_window_chunks() {
    let mut processor = DspProcessor::new(FrameWindowSetting::Default);
    let block = vec![0.05_f32; FrameWindowSetting::Default.samples()];
    let output = process_block(&mut processor, &block);
    assert_eq!(output.len(), FrameWindowSetting::Default.samples());

    let partial = vec![0.05_f32; FrameWindowSetting::Fallback.samples()];
    let tail_output = process_block(&mut processor, &partial);
    assert!(
        tail_output.is_empty(),
        "partial window should remain buffered"
    );

    let flushed = flush_dsp(&mut processor);
    assert_eq!(
        flushed.len(),
        FrameWindowSetting::Fallback.samples(),
        "flush should release buffered remainder"
    );
    assert!(flush_dsp(&mut processor).is_empty());
}

#[test]
fn dsp_processor_supports_fallback_window() {
    let mut processor = DspProcessor::new(FrameWindowSetting::Fallback);
    let block = vec![0.05_f32; FrameWindowSetting::Fallback.samples()];
    let output = process_block(&mut processor, &block);
    assert_eq!(output.len(), FrameWindowSetting::Fallback.samples());
    assert!(
        flush_dsp(&mut processor).is_empty(),
        "no remainder expected after full window"
    );
}

#[test]
fn blocks_of_any_length_give_the_same_windows() {
    let input: Vec<f32> = (0..7_777).map(|i| i as f32).collect();
    let mut whole = DspProcessor::new(FrameWindowSetting::Fallback);
    let mut expected = process_block(&mut whole, &input);
    expected.extend(flush_dsp(&mut whole));
    let mut parts = DspProcessor::new(FrameWindowSetting::Fallback);
    let mut output = Vec::new();
    for block in input.chunks(37) {
        output.extend(process_block(&mut parts, block));
    }
    output.extend(flush_dsp(&mut parts));
    assert_eq!(output, expected);
    assert_eq!(output[..input.len()], input[..]);
    assert_eq!(output.len() % SUBFRAME_SIZE, 0);
    assert_eq!(output.last(), Some(&7_776.0));
}

#[test]
fn windows_have_their_lengths() {
    assert_eq!(FrameWindowSetting::Default.duration_ms(), 200);
    assert_eq!(FrameWindowSetting::Fallback.duration_ms(), 100);
    assert_eq!(FrameWindowSetting::Default.samples(), 3_200);
    assert_eq!(FrameWindowSetting::default(), FrameWindowSetting::Default);
}

#[test]
fn devices_are_classified_by_their_label() {
    assert_eq!(classify_device("USB Audio"), "usb");
    assert_eq!(classify_device("My BlueTooth Headset"), "bluetooth");
    assert_eq!(classify_device("BT Speaker"), "bluetooth");
    assert_eq!(classify_device("Microphone Array"), "array");
    assert_eq!(classify_device("内置麦克风"), "built-in");
    assert_eq!(classify_device("USB Array BT"), "usb");
}

#[test]
fn devices_are_listed_and_found_again() {
    let names = vec![Some("Mic".to_string()), None, Some("Mic".to_string())];
    let list = list_devices(&names, &Some("Mic".to_string())).expect("devices");
    assert_eq!(list[0].id, "Mic::0");
    assert_eq!(list[1].id, "------1::1");
    assert_eq!(list[1].label, "输入设备 #1");
    assert_eq!(list[2].id, "Mic::2");
    assert!(list[0].preferred && !list[1].preferred && list[2].preferred);
    for (index, device) in list.iter().enumerate() {
        let found = resolve_device(&names, Some(&device.id), &None).expect("listed");
        assert_eq!(found.index, Some(index));
        assert_eq!(found.label, device.label);
    }
    assert_eq!(
        resolve_device(&names, Some("Mic::1"), &None).err(),
        Some("未找到匹配的设备 Mic::1".to_string())
    );
    let first = list_devices(&names, &None).expect("devices");
    assert!(first[0].preferred && !first[2].preferred);
    assert!(list_devices(&[], &None).is_err());
}

#[test]
fn the_default_device_is_used_where_none_is_named() {
    let found = resolve_device(&[], None, &Some(Some("Desk".to_string()))).expect("default");
    assert_eq!(found.index, None);
    assert_eq!(found.label, "Desk");
    let unnamed = resolve_device(&[], None, &Some(None)).expect("default");
    assert_eq!(unnamed.label, "默认输入设备");
    assert!(resolve_device(&[], None, &None).is_err());
    assert_eq!(resolved_id(None, "A b"), "A-b::default");
    assert_eq!(resolved_id(Some("x"), "A b"), "x");
    assert_eq!(sanitize_identifier("Ä1 é"), "-1--");
}

fn range(min_rate: u32, max_rate: u32) -> RateRange {
    RateRange { min_rate, max_rate }
}

#[test]
fn the_best_rate_is_chosen() {
    let ranges = vec![range(44_100, 44_100), range(48_000, 96_000), range(8_000, 16_000)];
    assert_eq!(
        select_stream_config(&ranges),
        Ok(StreamChoice { index: 2, sample_rate: TARGET_SAMPLE_RATE })
    );
    assert_eq!(
        select_stream_config(&ranges[..2]),
        Ok(StreamChoice { index: 1, sample_rate: 48_000 })
    );
    let odd = vec![range(8_000, 11_025), range(8_000, 22_050 - 7_000), range(8_000, 15_050)];
    assert_eq!(
        select_stream_config(&odd),
        Ok(StreamChoice { index: 1, sample_rate: 15_050 })
    );
    assert_eq!(
        select_stream_config(&[]).err(),
        Some("未找到可用的音频输入配置，请检查麦克风连接".to_string())
    );
}

#[test]
fn only_known_formats_are_recorded() {
    assert!(check_sample_format(&SampleFormat::F32).is_ok());
    assert!(check_sample_format(&SampleFormat::I16).is_ok());
    assert!(check_sample_format(&SampleFormat::U16).is_ok());
    assert_eq!(
        check_sample_format(&SampleFormat::Other("F64".into())),
        Err("不支持的音频采样格式: F64. 请切换到 PCM16/PCM32 设备".to_string())
    );
}

#[test]
fn a_recording_is_written_as_a_wave_file() {
    let samples = [0_i16, 1, -1, i16::MAX, i16::MIN, 258];
    let bytes = encode_wave(&samples, 16_000).expect("encode");
    assert_eq!(bytes.len(), 44 + 12);
    assert_eq!(&bytes[..4], b"RIFF");
    assert_eq!(bytes[4..8], 48_u32.to_le_bytes());
    assert_eq!(&bytes[8..16], b"WAVEfmt ");
    assert_eq!(bytes[16..20], 16_u32.to_le_bytes());
    assert_eq!(bytes[20..22], 1_u16.to_le_bytes());
    assert_eq!(bytes[22..24], 1_u16.to_le_bytes());
    assert_eq!(bytes[24..28], 16_000_u32.to_le_bytes());
    assert_eq!(bytes[28..32], 32_000_u32.to_le_bytes());
    assert_eq!(bytes[32..34], 2_u16.to_le_bytes());
    assert_eq!(bytes[34..36], 16_u16.to_le_bytes());
    assert_eq!(&bytes[36..40], b"data");
    assert_eq!(bytes[40..44], 12_u32.to_le_bytes());
    for (i, sample) in samples.iter().enumerate() {
        assert_eq!(bytes[44 + 2 * i..46 + 2 * i], sample.to_le_bytes());
    }
    let mut reader = hound::WavReader::new(std::io::Cursor::new(bytes)).expect("a wave file");
    assert_eq!(reader.spec().sample_rate, 16_000);
    let read: Vec<i16> = reader.samples::<i16>().map(|s| s.expect("sample")).collect();
    assert_eq!(read, samples);
    assert_eq!(encode_wave(&[], 8_000).expect("encode").len(), 44);
}

#[test]
fn bars_cover_the_recording_evenly() {
    assert_eq!(waveform_bars(10, 3), vec![(0, 3), (3, 6), (6, 9)]);
    assert_eq!(waveform_bars(2, 5), vec![(0, 1), (1, 2)]);
    assert!(waveform_bars(0, 5).is_empty());
    assert!(waveform_bars(5, 0).is_empty());
}

#[test]
fn channels_are_mixed_frame_by_frame() {
    assert_eq!(channel_frames(5, 2), vec![(0, 2), (2, 4), (4, 5)]);
    assert_eq!(channel_frames(4, 2), vec![(0, 2), (2, 4)]);
    assert!(channel_frames(4, 0).is_empty());
    assert!(channel_frames(0, 2).is_empty());
}
