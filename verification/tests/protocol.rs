use voice_assistant::streaming::Pull;
use voice_assistant::synthesis_session::{SessionEvent, SessionPhase, SynthesisSession, Wanted};
use voice_assistant::tts_protocol::{
    decode_length, encode_length, first_expectation, frame_message, interpret_response,
    socket_file_name, split_frame, startup_step, Awaiting, ClientError, ClientOutcome,
    StartupStep, TtsCommand, TtsResponse, MAX_SOCKET_ATTEMPTS,
};

#[test]
fn length_prefix_is_little_endian() {
    assert_eq!(encode_length(0), [0, 0, 0, 0]);
    assert_eq!(encode_length(1), [1, 0, 0, 0]);
    assert_eq!(encode_length(0x0102_0304), [4, 3, 2, 1]);
    assert_eq!(encode_length(u32::MAX), [255, 255, 255, 255]);
    for value in [0u32, 5, 255, 256, 65535, 65536, 0x00ff_ffff, 0x0100_0000, u32::MAX] {
        assert_eq!(encode_length(value), value.to_le_bytes());
        assert_eq!(decode_length(&value.to_le_bytes()), value);
    }
}

#[test]
fn frame_round_trip() {
    let payload = vec![9u8, 8, 7];
    let mut wire = frame_message(&payload).unwrap();
    assert_eq!(wire, vec![3, 0, 0, 0, 9, 8, 7]);
    wire.extend_from_slice(&[1, 0]);
    assert_eq!(split_frame(&wire), Some((payload, 7)));
    assert_eq!(frame_message(&[]).unwrap(), vec![0, 0, 0, 0]);
    assert_eq!(split_frame(&[0, 0, 0, 0]), Some((Vec::new(), 4)));
}

#[test]
fn incomplete_frames_are_not_split() {
    assert_eq!(split_frame(&[]), None);
    assert_eq!(split_frame(&[2, 0, 0]), None);
    assert_eq!(split_frame(&[2, 0, 0, 0, 1]), None);
    assert_eq!(split_frame(&[0, 0, 0, 1]), None);
}

#[test]
fn generate_audio_expects_started_then_finished() {
    let command = TtsCommand::GenerateAudio("hello".to_string());
    assert_eq!(first_expectation(&command), Awaiting::Started);
    assert_eq!(
        interpret_response(Awaiting::Started, TtsResponse::Started),
        ClientOutcome::AwaitNext(Awaiting::Finished)
    );
    assert_eq!(
        interpret_response(Awaiting::Finished, TtsResponse::Finished),
        ClientOutcome::Completed
    );
}

#[test]
fn stop_and_wait_expect_one_answer() {
    assert_eq!(first_expectation(&TtsCommand::Stop), Awaiting::Stopped);
    assert_eq!(first_expectation(&TtsCommand::WaitUntilFinished), Awaiting::Finished);
    assert_eq!(
        interpret_response(Awaiting::Stopped, TtsResponse::Stopped),
        ClientOutcome::Completed
    );
}

#[test]
fn error_response_fails_the_request() {
    for awaiting in [Awaiting::Started, Awaiting::Finished, Awaiting::Stopped] {
        assert_eq!(
            interpret_response(awaiting, TtsResponse::Error("boom".to_string())),
            ClientOutcome::Failed(ClientError::Tts("boom".to_string()))
        );
    }
}

#[test]
fn out_of_turn_response_fails_the_request() {
    assert_eq!(
        interpret_response(Awaiting::Started, TtsResponse::Finished),
        ClientOutcome::Failed(ClientError::UnexpectedResponse(TtsResponse::Finished))
    );
    assert_eq!(
        interpret_response(Awaiting::Finished, TtsResponse::Started),
        ClientOutcome::Failed(ClientError::UnexpectedResponse(TtsResponse::Started))
    );
    assert_eq!(
        interpret_response(Awaiting::Stopped, TtsResponse::Finished),
        ClientOutcome::Failed(ClientError::UnexpectedResponse(TtsResponse::Finished))
    );
    assert_eq!(
        interpret_response(Awaiting::Finished, TtsResponse::ChunkGenerated(3)),
        ClientOutcome::Failed(ClientError::UnexpectedResponse(TtsResponse::ChunkGenerated(3)))
    );
    assert_eq!(
        interpret_response(Awaiting::Finished, TtsResponse::Stopped),
        ClientOutcome::Failed(ClientError::UnexpectedResponse(TtsResponse::Stopped))
    );
}

#[test]
fn startup_waits_for_the_socket() {
    assert_eq!(startup_step(false, false, 0), StartupStep::Wait);
    assert_eq!(startup_step(false, false, MAX_SOCKET_ATTEMPTS - 1), StartupStep::Wait);
    assert_eq!(startup_step(false, false, MAX_SOCKET_ATTEMPTS), StartupStep::FailTimedOut);
    assert_eq!(startup_step(false, true, 0), StartupStep::Connect);
    assert_eq!(startup_step(false, true, MAX_SOCKET_ATTEMPTS), StartupStep::Connect);
    assert_eq!(startup_step(true, true, 1), StartupStep::FailExited);
    assert_eq!(startup_step(true, false, 1), StartupStep::FailExited);
}

#[test]
fn socket_name_embeds_the_process_id() {
    assert_eq!(socket_file_name(4711), "voice-assistant-tts-4711.sock");
    assert_eq!(socket_file_name(0), "voice-assistant-tts-0.sock");
}

fn drain(session: &mut SynthesisSession<f32>) -> Vec<f32> {
    let mut samples = Vec::new();
    loop {
        match session.pull() {
            Pull::Sample(sample) => samples.push(sample),
            _ => return samples,
        }
    }
}

#[test]
fn generation_is_answered_started_then_finished() {
    let mut session: SynthesisSession<f32> = SynthesisSession::new(24000);
    assert_eq!(session.phase(), SessionPhase::Idle);
    assert_eq!(session.wanted(), Wanted::Command);
    let mut replies = Vec::new();
    let step = session.on_event(SessionEvent::Command(TtsCommand::GenerateAudio("hi".to_string())));
    assert_eq!(step.generate, Some("hi".to_string()));
    assert_eq!(step.wanted, Wanted::Chunk);
    assert_eq!(step.reactions.len(), 2);
    assert_eq!(step.reactions[1].started, Some(24000));
    replies.extend(step.reply);
    let step = session.on_event(SessionEvent::Chunk(vec![0.1, 0.2]));
    replies.extend(step.reply);
    assert_eq!(session.pull(), Pull::Sample(0.1));
    let step = session.on_event(SessionEvent::Chunk(vec![0.3]));
    replies.extend(step.reply);
    let step = session.on_event(SessionEvent::GenerationDone);
    assert_eq!(step.wanted, Wanted::Tick);
    assert_eq!(session.phase(), SessionPhase::Draining);
    replies.extend(step.reply);
    let step = session.on_event(SessionEvent::Tick);
    assert_eq!(step.wanted, Wanted::Tick);
    replies.extend(step.reply);
    assert_eq!(drain(&mut session), vec![0.2, 0.3]);
    let step = session.on_event(SessionEvent::Tick);
    assert_eq!(step.wanted, Wanted::Command);
    replies.extend(step.reply);
    assert_eq!(session.phase(), SessionPhase::Idle);
    assert_eq!(replies, vec![TtsResponse::Started, TtsResponse::Finished]);
}

#[test]
fn failed_generation_is_answered_started_then_error() {
    let mut session: SynthesisSession<f32> = SynthesisSession::new(24000);
    let mut replies = Vec::new();
    replies.extend(
        session
            .on_event(SessionEvent::Command(TtsCommand::GenerateAudio("hi".to_string())))
            .reply,
    );
    replies.extend(session.on_event(SessionEvent::Chunk(vec![0.1])).reply);
    let step = session.on_event(SessionEvent::ChunkFailed("model broke".to_string()));
    assert_eq!(step.wanted, Wanted::Command);
    assert!(step.reactions[0].stopped.as_ref().unwrap().is_finished_stream());
    replies.extend(step.reply);
    assert_eq!(session.phase(), SessionPhase::Idle);
    assert_eq!(
        replies,
        vec![TtsResponse::Started, TtsResponse::Error("model broke".to_string())]
    );
    assert_eq!(session.pull(), Pull::EndOfStream);
}

#[test]
fn empty_generation_finishes_at_once_when_nothing_plays() {
    let mut session: SynthesisSession<f32> = SynthesisSession::new(24000);
    session.on_event(SessionEvent::Command(TtsCommand::GenerateAudio(String::new())));
    let step = session.on_event(SessionEvent::GenerationDone);
    // The renderer has not yet seen the end of the stream.
    assert_eq!(step.reply, None);
    assert_eq!(session.pull(), Pull::EndOfStream);
    assert_eq!(session.on_event(SessionEvent::Tick).reply, Some(TtsResponse::Finished));
}

#[test]
fn stop_and_wait_requests_are_answered() {
    let mut session: SynthesisSession<f32> = SynthesisSession::new(24000);
    let step = session.on_event(SessionEvent::Command(TtsCommand::Stop));
    assert_eq!(step.reply, Some(TtsResponse::Stopped));
    assert_eq!(step.wanted, Wanted::Command);
    let step = session.on_event(SessionEvent::Command(TtsCommand::WaitUntilFinished));
    assert_eq!(step.reply, Some(TtsResponse::Finished));
    assert_eq!(session.phase(), SessionPhase::Idle);
}

#[test]
fn undecodable_message_is_answered_with_an_error() {
    let mut session: SynthesisSession<f32> = SynthesisSession::new(24000);
    let step = session.on_event(SessionEvent::Undecodable("bad bytes".to_string()));
    assert_eq!(
        step.reply,
        Some(TtsResponse::Error("Failed to deserialize command: bad bytes".to_string()))
    );
    assert_eq!(step.wanted, Wanted::Command);
    assert_eq!(session.phase(), SessionPhase::Idle);
}

#[test]
fn unexpected_events_change_nothing() {
    let mut session: SynthesisSession<f32> = SynthesisSession::new(24000);
    let step = session.on_event(SessionEvent::Chunk(vec![0.5]));
    assert_eq!(step.reply, None);
    assert_eq!(step.wanted, Wanted::Command);
    assert_eq!(session.on_event(SessionEvent::Tick).reply, None);
    assert_eq!(session.on_event(SessionEvent::GenerationDone).reply, None);
    assert_eq!(session.pull(), Pull::EndOfStream);
    session.on_event(SessionEvent::Command(TtsCommand::GenerateAudio("x".to_string())));
    let step = session.on_event(SessionEvent::Command(TtsCommand::Stop));
    assert_eq!(step.reply, None);
    assert_eq!(step.wanted, Wanted::Chunk);
    assert_eq!(session.phase(), SessionPhase::Generating);
}
