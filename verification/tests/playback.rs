use voice_assistant::audio::{AudioCommand, AudioController, BufferedSource, SinkSource};
use voice_assistant::streaming::{Pull, StreamingAudioBuffer};

#[test]
fn stream_hands_out_samples_in_order() {
    let mut stream: StreamingAudioBuffer<f32> = StreamingAudioBuffer::new();
    assert_eq!(stream.pull(), Pull::Starved);
    stream.push_chunk(vec![0.1, 0.2]);
    stream.push_chunk(vec![0.3]);
    assert_eq!(stream.len(), 3);
    assert_eq!(stream.pull(), Pull::Sample(0.1));
    assert_eq!(stream.pull(), Pull::Sample(0.2));
    assert_eq!(stream.pull(), Pull::Sample(0.3));
    assert_eq!(stream.pull(), Pull::Starved);
    assert!(!stream.is_finished());
}

#[test]
fn finished_and_drained_stream_stays_ended() {
    let mut stream: StreamingAudioBuffer<f32> = StreamingAudioBuffer::new();
    stream.push_chunk(vec![0.5]);
    stream.mark_finished();
    assert!(!stream.has_ended());
    assert_eq!(stream.pull(), Pull::Sample(0.5));
    assert!(stream.has_ended());
    for _ in 0..100 {
        assert_eq!(stream.pull(), Pull::EndOfStream);
    }
    assert!(stream.is_finished());
}

#[test]
fn cleared_stream_can_be_used_again() {
    let mut stream: StreamingAudioBuffer<u8> = StreamingAudioBuffer::new();
    stream.push_chunk(vec![1, 2]);
    stream.mark_finished();
    stream.clear();
    assert_eq!(stream.len(), 0);
    assert!(!stream.is_finished());
    assert_eq!(stream.pull(), Pull::Starved);
}

#[test]
fn buffered_source_plays_out() {
    let mut source = BufferedSource::new(vec![7u8, 8], 22050);
    assert_eq!(source.sample_rate(), 22050);
    assert_eq!(source.remaining_len(), 2);
    assert_eq!(source.next_sample(), Some(7));
    assert_eq!(source.next_sample(), Some(8));
    assert_eq!(source.next_sample(), None);
    assert_eq!(source.remaining_len(), 0);
}

#[test]
fn play_after_start_streaming_finishes_the_stream() {
    let mut controller: AudioController<f32> = AudioController::new();
    let started = controller.handle(AudioCommand::StartStreaming(24000));
    assert!(started.stopped.is_none());
    assert_eq!(started.started, Some(24000));
    assert!(controller.is_streaming());
    let played = controller.handle(AudioCommand::Play(vec![0.1, 0.2], 16000));
    let stopped = played.stopped.expect("the stream is stopped");
    assert!(stopped.is_finished_stream());
    assert_eq!(stopped.sample_rate(), 24000);
    assert_eq!(played.started, Some(16000));
    assert!(!controller.is_streaming());
    assert_eq!(controller.pull(), Pull::Sample(0.1));
    assert_eq!(controller.pull(), Pull::Sample(0.2));
    assert_eq!(controller.pull(), Pull::EndOfStream);
    assert!(controller.is_finished());
    // What is pushed after the stream was replaced is dropped.
    controller.handle(AudioCommand::StreamChunk(vec![0.9]));
    assert_eq!(controller.pull(), Pull::EndOfStream);
}

#[test]
fn streamed_chunks_play_out_after_finish() {
    let mut controller: AudioController<u8> = AudioController::new();
    controller.start_streaming(8000);
    controller.stream_chunk(vec![1, 2]);
    assert_eq!(controller.pull(), Pull::Sample(1));
    assert_eq!(controller.pull(), Pull::Sample(2));
    assert_eq!(controller.pull(), Pull::Starved);
    controller.stream_chunk(vec![3]);
    assert_eq!(controller.wait_until_finished().finished, Some(false));
    controller.finish_streaming();
    assert!(!controller.is_streaming());
    assert!(!controller.is_finished());
    assert_eq!(controller.pull(), Pull::Sample(3));
    assert_eq!(controller.pull(), Pull::EndOfStream);
    assert_eq!(controller.wait_until_finished().finished, Some(true));
}

#[test]
fn stop_hands_back_what_was_playing() {
    let mut controller: AudioController<u8> = AudioController::new();
    assert!(controller.stop().stopped.is_none());
    controller.play(vec![1, 2, 3], 16000);
    assert_eq!(controller.pull(), Pull::Sample(1));
    let reaction = controller.stop();
    match reaction.stopped {
        Some(SinkSource::Samples(rest)) => assert_eq!(rest.remaining_len(), 2),
        _ => panic!("a recording was playing"),
    }
    assert_eq!(reaction.started, None);
    assert!(controller.is_finished());
}

#[test]
fn start_streaming_replaces_a_recording() {
    let mut controller: AudioController<u8> = AudioController::new();
    controller.stop_and_play(vec![1, 2, 3], 16000);
    let reaction = controller.start_streaming(8000);
    let stopped = reaction.stopped.expect("the recording is stopped");
    assert!(!stopped.is_finished_stream());
    assert_eq!(stopped.sample_rate(), 16000);
    assert_eq!(controller.pull(), Pull::Starved);
}

#[test]
fn second_stream_replaces_the_first_without_finishing_it() {
    let mut controller: AudioController<u8> = AudioController::new();
    controller.start_streaming(8000);
    controller.stream_chunk(vec![1]);
    let reaction = controller.start_streaming(16000);
    let stopped = reaction.stopped.expect("the first stream is stopped");
    assert!(!stopped.is_finished_stream());
    assert!(controller.is_streaming());
    assert_eq!(controller.pull(), Pull::Starved);
}
