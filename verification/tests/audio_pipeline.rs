use std::cell::Cell;

use voice_assistant::audio_resampler::AudioResampler;
use voice_assistant::endpointing::{
    EndOfSpeechDetector, EndOfSpeechResult, InProgressSpeechState, SpeechConfigError,
};
use voice_assistant::frames::append_frames;
use voice_assistant::rolling_buffer::{frames_needed, RollingBuffer};
use voice_assistant::speech_listener::{SpeechEvent, SpeechListenerState, SpeechPipeline};

fn lerp(low: f32, high: f32, offset: u32, scale: u32) -> f32 {
    let frac = offset as f64 / scale as f64;
    low * (1.0 - frac) as f32 + high * frac as f32
}

#[test]
fn rolling_buffer_capacity_rounds_up() {
    assert_eq!(frames_needed(2_000_000_000, 32_000_000), 63);
    assert_eq!(frames_needed(64_000_000, 32_000_000), 2);
    assert_eq!(frames_needed(1, 32_000_000), 1);
    assert_eq!(frames_needed(0, 32_000_000), 0);
    assert_eq!(frames_needed(0, 0), 0);
    assert_eq!(frames_needed(5, 0), usize::MAX);
    let buffer: RollingBuffer<f32> = RollingBuffer::new(2_000_000_000, 32_000_000);
    assert_eq!(buffer.max_chunks(), 63);
    assert!(buffer.is_empty());
}

#[test]
fn rolling_buffer_keeps_the_last_frames() {
    let mut buffer: RollingBuffer<f32> = RollingBuffer::with_capacity(3);
    for i in 0..4 {
        buffer.push(vec![i as f32, i as f32 + 0.5]);
    }
    assert_eq!(buffer.len(), 3);
    assert_eq!(buffer.drain_flat(), vec![1.0, 1.5, 2.0, 2.5, 3.0, 3.5]);
    assert_eq!(buffer.len(), 0);
    assert!(buffer.drain_flat().is_empty());
}

#[test]
fn rolling_buffer_of_capacity_zero_holds_one_frame() {
    let mut buffer: RollingBuffer<u8> = RollingBuffer::with_capacity(0);
    buffer.push(vec![1]);
    buffer.push(vec![2, 3]);
    assert_eq!(buffer.len(), 1);
    assert_eq!(buffer.drain_flat(), vec![2, 3]);
}

#[test]
fn append_frames_concatenates_in_order() {
    let mut samples = vec![0u8];
    append_frames(&mut samples, vec![vec![1, 2], vec![], vec![3]]);
    assert_eq!(samples, vec![0, 1, 2, 3]);
}

#[test]
fn resampler_with_equal_rates_is_lossless() {
    let mut resampler: AudioResampler<f32> = AudioResampler::new(16000, 16000, 1, 4);
    let first: Vec<f32> = vec![0.1, 0.2, 0.3, 0.4, 0.5, 0.6];
    let second: Vec<f32> = vec![0.7, f32::INFINITY, 0.9];
    let mut out = Vec::new();
    append_frames(&mut out, resampler.resample(&first, lerp));
    assert_eq!(out, vec![0.1, 0.2, 0.3, 0.4]);
    assert_eq!(resampler.pending(), 2);
    append_frames(&mut out, resampler.resample(&second, lerp));
    assert_eq!(out, vec![0.1, 0.2, 0.3, 0.4, 0.5, 0.6, 0.7, f32::INFINITY]);
    assert_eq!(resampler.pending(), 1);
}

#[test]
fn resampler_halves_the_rate() {
    let mut resampler: AudioResampler<f32> = AudioResampler::new(32000, 16000, 1, 2);
    let input: Vec<f32> = vec![0.0, 1.0, 2.0, 3.0, 4.0, 5.0];
    let chunks = resampler.resample(&input, lerp);
    assert_eq!(chunks, vec![vec![0.0, 2.0]]);
    assert_eq!(resampler.pending(), 1);
}

#[test]
fn resampler_interpolates_between_neighbours() {
    let mut resampler: AudioResampler<f32> = AudioResampler::new(2, 4, 1, 4);
    let input: Vec<f32> = vec![0.0, 1.0];
    let chunks = resampler.resample(&input, lerp);
    assert_eq!(chunks, vec![vec![0.0, 0.5, 1.0, 1.0]]);
    assert_eq!(resampler.pending(), 0);
}

#[test]
fn resampler_total_tracks_the_ratio() {
    let mut resampler: AudioResampler<f32> = AudioResampler::new(48000, 16000, 1, 512);
    let input: Vec<f32> = vec![0.25; 1000];
    let mut emitted = 0usize;
    for call in 1..=20usize {
        assert_eq!(resampler.output_len(input.len()), Some(333));
        for chunk in resampler.resample(&input, lerp) {
            assert_eq!(chunk.len(), 512);
            emitted += 512;
        }
        assert!(resampler.pending() < 512);
        assert_eq!(emitted + resampler.pending(), call * 333);
    }
}

#[test]
fn resampler_output_len_reports_what_cannot_be_done() {
    let stalled: AudioResampler<f32> = AudioResampler::new(0, 16000, 1, 512);
    assert_eq!(stalled.output_len(10), None);
    let silent: AudioResampler<f32> = AudioResampler::new(16000, 0, 1, 512);
    assert_eq!(silent.output_len(10), Some(0));
    let upsampling: AudioResampler<f32> = AudioResampler::new(1, 4_000_000_000, 1, 512);
    assert_eq!(upsampling.output_len(usize::MAX), None);
}

#[test]
fn end_of_speech_detector_derives_its_window() {
    let detector = EndOfSpeechDetector::new(16000, 512, 1_000_000_000).unwrap();
    assert_eq!(detector.chunk_duration(), 32_000_000);
    assert_eq!(detector.silence_chunks_needed(), 32);
    assert!(matches!(
        EndOfSpeechDetector::new(0, 512, 1),
        Err(SpeechConfigError::ZeroSampleRate)
    ));
    assert!(matches!(
        EndOfSpeechDetector::new(1, usize::MAX, 1),
        Err(SpeechConfigError::FrameTooLong)
    ));
}

fn run_detector(window: usize, probabilities: &[f32]) -> (usize, Vec<f32>, u64) {
    let threshold: f32 = 0.75;
    let detector = EndOfSpeechDetector::with_window(32_000_000, window);
    let mut state = InProgressSpeechState::new(Vec::new());
    for (i, p) in probabilities.iter().enumerate() {
        let chunk = vec![i as f32 + 1.0; 2];
        match detector.process_chunk(chunk, *p > threshold, state) {
            EndOfSpeechResult::StillListening(updated) => {
                assert_eq!(updated.speech_duration(), 32_000_000 * (i as u64 + 1));
                state = updated;
            }
            EndOfSpeechResult::SpeechEnded { audio_data, duration } => {
                return (i + 1, audio_data, duration);
            }
        }
    }
    panic!("still listening after the last chunk");
}

#[test]
fn end_of_speech_after_sustained_silence() {
    // A window of two: two silent chunks fill it, the third ends the utterance.
    let (ended_at, audio, duration) = run_detector(2, &[0.9, 0.9, 0.1, 0.1, 0.1]);
    assert_eq!(ended_at, 5);
    assert_eq!(audio, vec![1.0, 1.0, 2.0, 2.0, 3.0, 3.0, 4.0, 4.0]);
    assert_eq!(duration, 128_000_000);
}

#[test]
fn end_of_speech_needs_a_window_of_silence_first() {
    // A window of three still holds speech after three silent chunks: the
    // verdicts of chunks one and two leave it one at a time.
    let (ended_at, audio, duration) =
        run_detector(3, &[0.9, 0.9, 0.1, 0.1, 0.1, 0.1, 0.1]);
    assert_eq!(ended_at, 7);
    assert_eq!(audio.len(), 12);
    assert_eq!(audio[10], 6.0);
    assert_eq!(duration, 192_000_000);
}

#[test]
fn end_of_speech_threshold_is_exclusive() {
    let (ended_at, _, _) = run_detector(1, &[0.75, 0.75]);
    assert_eq!(ended_at, 2);
}

#[test]
fn end_of_speech_window_puts_early_silence_in_front() {
    let detector = EndOfSpeechDetector::with_window(1, 3);
    let mut state = InProgressSpeechState::new(vec![9u8]);
    for verdict in [true, false] {
        state = match detector.process_chunk(vec![1u8], verdict, state) {
            EndOfSpeechResult::StillListening(updated) => updated,
            EndOfSpeechResult::SpeechEnded { .. } => panic!("ended early"),
        };
    }
    assert_eq!(state.window_len(), 2);
    assert_eq!(state.window_entry(0), Some(true));
    assert_eq!(state.window_entry(1), Some(false));
    assert_eq!(state.window_entry(2), None);
    assert_eq!(state.audio_len(), 3);
    assert_eq!(state.into_audio(), vec![9, 1, 1]);
}

#[test]
fn process_chunks_stops_asking_at_the_end_of_speech() {
    let detector = EndOfSpeechDetector::with_window(10, 1);
    let asked = Cell::new(0usize);
    let is_speech = |_chunk: &Vec<u8>| {
        asked.set(asked.get() + 1);
        false
    };
    let chunks = vec![vec![1u8], vec![2u8], vec![3u8], vec![4u8]];
    let state = InProgressSpeechState::new(vec![0u8]);
    match detector.process_chunks(chunks, state, is_speech) {
        EndOfSpeechResult::SpeechEnded { audio_data, duration } => {
            assert_eq!(audio_data, vec![0, 1]);
            assert_eq!(duration, 10);
        }
        EndOfSpeechResult::StillListening(_) => panic!("no end of speech"),
    }
    assert_eq!(asked.get(), 2);
}

#[test]
fn speech_duration_saturates() {
    let detector = EndOfSpeechDetector::with_window(u64::MAX, 5);
    let mut state = InProgressSpeechState::new(Vec::<u8>::new());
    for _ in 0..2 {
        state = match detector.process_chunk(Vec::new(), true, state) {
            EndOfSpeechResult::StillListening(updated) => updated,
            EndOfSpeechResult::SpeechEnded { .. } => panic!("ended"),
        };
    }
    assert_eq!(state.speech_duration(), u64::MAX);
}

#[test]
fn listener_state_starts_waiting() {
    let state: SpeechListenerState<f32> = SpeechListenerState::default();
    assert!(matches!(state, SpeechListenerState::WaitingForWakeWord));
}

#[test]
fn pipeline_rejects_a_zero_input_rate() {
    assert!(matches!(
        SpeechPipeline::<f32>::new(0, 1, 1, 1),
        Err(SpeechConfigError::ZeroSampleRate)
    ));
}

#[test]
fn pipeline_emits_nothing_while_waiting() {
    let mut pipeline: SpeechPipeline<f32> =
        SpeechPipeline::new(16000, 1, 96_000_000, 64_000_000).ok().unwrap();
    assert_eq!(pipeline.chunk_duration(), 32_000_000);
    let loud = vec![0.9f32; 512];
    for _ in 0..10 {
        assert_eq!(pipeline.converted_len(loud.len()), Some(512));
        let event = pipeline.process(&loud, lerp, false, |_: &Vec<f32>| true);
        assert!(event.is_none());
        assert!(!pipeline.is_listening());
    }
    assert_eq!(pipeline.buffered_chunks(), 2);
}

#[test]
fn pipeline_event_begins_with_the_pre_roll() {
    let mut pipeline: SpeechPipeline<f32> =
        SpeechPipeline::new(16000, 1, 64_000_000, 64_000_000).ok().unwrap();
    let frame = |value: f32| vec![value; 512];
    for value in [1.0, 2.0, 3.0] {
        assert!(pipeline.process(&frame(value), lerp, false, |_: &Vec<f32>| true).is_none());
    }
    // The wake word fires on the fourth frame: frames three and four are the pre-roll.
    assert!(pipeline.process(&frame(4.0), lerp, true, |_: &Vec<f32>| true).is_none());
    assert!(pipeline.is_listening());
    assert_eq!(pipeline.buffered_chunks(), 0);
    let speech = |chunk: &Vec<f32>| chunk[0] < 10.0;
    assert!(pipeline.process(&frame(5.0), lerp, true, speech).is_none());
    assert!(pipeline.process(&frame(10.0), lerp, false, speech).is_none());
    assert!(pipeline.process(&frame(11.0), lerp, false, speech).is_none());
    assert!(pipeline.process(&frame(12.0), lerp, false, speech).is_none());
    let event = pipeline.process(&frame(13.0), lerp, false, speech);
    let audio = match event {
        Some(SpeechEvent::SpeechDetected(audio)) => audio,
        None => panic!("no utterance"),
    };
    assert!(!pipeline.is_listening());
    let mut expected = Vec::new();
    for value in [3.0, 4.0, 5.0, 10.0, 11.0, 12.0] {
        expected.extend(frame(value));
    }
    assert_eq!(audio, expected);
    assert!(pipeline.process(&frame(14.0), lerp, false, speech).is_none());
    assert_eq!(pipeline.buffered_chunks(), 1);
}

#[test]
fn speech_event_gives_up_its_audio() {
    assert_eq!(SpeechEvent::SpeechDetected(vec![1u8, 2]).into_audio(), vec![1, 2]);
}
