//! The control protocol between the assistant and the synthesis process:
//! messages, length-prefixed framing, and what a client makes of a response.

use vstd::prelude::*;
use vstd::string::StringExecFns;
use crate::human_format::{decimal_string, decimal_text};

verus! {

/// A request to the synthesis process.
#[derive(Debug, Clone, PartialEq, Eq)]
pub enum TtsCommand {
    /// Generate audio from text and play it.
    GenerateAudio(String),
    /// Stop current playback.
    Stop,
    /// Wait until current playback has finished.
    WaitUntilFinished,
}

/// An answer of the synthesis process.
#[derive(Debug, Clone, PartialEq, Eq)]
pub enum TtsResponse {
    /// Generation has started.
    Started,
    /// A chunk was generated (progress indicator).
    ChunkGenerated(u32),
    /// Generation and playback are complete.
    Finished,
    /// Playback was stopped.
    Stopped,
    /// Something went wrong.
    Error(String),
}

/// A request as a mathematical value.
pub enum TtsCommandView {
    GenerateAudio(Seq<char>),
    Stop,
    WaitUntilFinished,
}

/// An answer as a mathematical value.
pub enum TtsResponseView {
    Started,
    ChunkGenerated(u32),
    Finished,
    Stopped,
    Error(Seq<char>),
}

impl TtsCommand {
    /// The request as a mathematical value.
    pub open spec fn view(&self) -> TtsCommandView {
        match self {
            TtsCommand::GenerateAudio(text) => TtsCommandView::GenerateAudio(text@),
            TtsCommand::Stop => TtsCommandView::Stop,
            TtsCommand::WaitUntilFinished => TtsCommandView::WaitUntilFinished,
        }
    }
}

impl TtsResponse {
    /// The answer as a mathematical value.
    pub open spec fn view(&self) -> TtsResponseView {
        match self {
            TtsResponse::Started => TtsResponseView::Started,
            TtsResponse::ChunkGenerated(sequence) => TtsResponseView::ChunkGenerated(*sequence),
            TtsResponse::Finished => TtsResponseView::Finished,
            TtsResponse::Stopped => TtsResponseView::Stopped,
            TtsResponse::Error(message) => TtsResponseView::Error(message@),
        }
    }
}

/// Number of bytes in the length prefix of a frame.
pub const LENGTH_PREFIX_BYTES: usize = 4;

/// The four bytes of `value`, least significant first.
pub open spec fn le_bytes(value: u32) -> Seq<u8> {
    seq![
        (value % 256) as u8,
        ((value / 256) % 256) as u8,
        ((value / 65536) % 256) as u8,
        (value / 16777216) as u8,
    ]
}

/// The number whose bytes, least significant first, open `bytes`.
pub open spec fn le_value(bytes: Seq<u8>) -> nat
    recommends
        bytes.len() >= 4,
{
    (bytes[0] as nat) + 256 * (bytes[1] as nat) + 65536 * (bytes[2] as nat) + 16777216 * (
    bytes[3] as nat)
}

/// A message on the wire: its length in four bytes, then the message.
pub open spec fn framed(payload: Seq<u8>) -> Seq<u8>
    recommends
        payload.len() <= u32::MAX,
{
    le_bytes(payload.len() as u32) + payload
}

/// Whether `bytes` opens with a complete frame.
pub open spec fn has_frame(bytes: Seq<u8>) -> bool {
    bytes.len() >= 4 && bytes.len() - 4 >= le_value(bytes)
}

/// The message of the frame that opens `bytes`.
pub open spec fn frame_payload(bytes: Seq<u8>) -> Seq<u8>
    recommends
        has_frame(bytes),
{
    bytes.subrange(4, 4 + le_value(bytes) as int)
}

/// Why a message could not be framed.
#[derive(Clone, Copy, Debug, PartialEq, Eq)]
pub enum FrameError {
    /// The length of the message does not fit in the four-byte prefix.
    MessageTooLong,
}

/// The length prefix for a message of `length` bytes.
pub fn encode_length(length: u32) -> (prefix: [u8; 4])
    ensures
        prefix@ == le_bytes(length),
{
    let prefix: [u8; 4] = [
        (length % 256) as u8,
        ((length / 256) % 256) as u8,
        ((length / 65536) % 256) as u8,
        (length / 16777216) as u8,
    ];
    prefix
}

/// The message length that a length prefix announces.
pub fn decode_length(prefix: &[u8; 4]) -> (length: u32)
    ensures
        length == le_value(prefix@),
{
    (prefix[0] as u32) + 256 * (prefix[1] as u32) + 65536 * (prefix[2] as u32) + 16777216 * (
    prefix[3] as u32)
}

/// Puts the length prefix in front of `data`.
pub fn frame_message(data: &[u8]) -> (frame: Result<Vec<u8>, FrameError>)
    ensures
        match frame {
            Ok(bytes) => data@.len() <= u32::MAX && bytes@ == framed(data@),
            Err(FrameError::MessageTooLong) => data@.len() > u32::MAX,
        },
{
    if data.len() > u32::MAX as usize {
        return Err(FrameError::MessageTooLong);
    }
    let prefix = encode_length(data.len() as u32);
    let mut bytes: Vec<u8> = Vec::new();
    let mut i: usize = 0;
    while i < 4
        invariant
            i <= 4,
            bytes@ == prefix@.take(i as int),
        decreases 4 - i,
    {
        bytes.push(prefix[i]);
        i += 1;
    }
    let mut j: usize = 0;
    while j < data.len()
        invariant
            j <= data.len(),
            bytes@ == prefix@ + data@.take(j as int),
        decreases data.len() - j,
    {
        bytes.push(data[j]);
        j += 1;
    }
    Ok(bytes)
}

/// Takes the frame that opens `bytes`, if it is complete: its message and
/// the number of bytes the frame occupies.
pub fn split_frame(bytes: &[u8]) -> (frame: Option<(Vec<u8>, usize)>)
    ensures
        match frame {
            Some((payload, consumed)) => {
                &&& has_frame(bytes@)
                &&& payload@ == frame_payload(bytes@)
                &&& consumed == 4 + le_value(bytes@)
            },
            None => !has_frame(bytes@),
        },
{
    if bytes.len() < 4 {
        return None;
    }
    let prefix: [u8; 4] = [bytes[0], bytes[1], bytes[2], bytes[3]];
    let length = decode_length(&prefix);
    if bytes.len() - 4 < length as usize {
        return None;
    }
    let end: usize = 4 + length as usize;
    let mut payload: Vec<u8> = Vec::new();
    let mut i: usize = 4;
    while i < end
        invariant
            4 <= i <= end,
            end <= bytes.len(),
            payload@ == bytes@.subrange(4, i as int),
        decreases end - i,
    {
        payload.push(bytes[i]);
        i += 1;
    }
    Some((payload, end))
}

/// A length and its prefix determine each other.
pub proof fn lemma_length_round_trip(length: u32)
    ensures
        le_bytes(length).len() == 4,
        le_value(le_bytes(length)) == length,
{
}

/// Four bytes are the prefix of the length they announce.
pub proof fn lemma_prefix_round_trip(prefix: Seq<u8>)
    requires
        prefix.len() == 4,
    ensures
        le_value(prefix) <= u32::MAX,
        le_bytes(le_value(prefix) as u32) == prefix,
{
    let b0 = prefix[0] as int;
    let b1 = prefix[1] as int;
    let b2 = prefix[2] as int;
    let b3 = prefix[3] as int;
    let value = le_value(prefix) as int;
    let upper1 = b1 + 256 * b2 + 65536 * b3;
    let upper2 = b2 + 256 * b3;
    assert(value == b0 + 256 * upper1);
    assert(value % 256 == b0 && value / 256 == upper1);
    assert(upper1 == b1 + 256 * upper2);
    assert(upper1 % 256 == b1 && upper1 / 256 == upper2);
    assert(value / 65536 == upper2) by {
        assert(value / 65536 == (value / 256) / 256);
    }
    assert(upper2 % 256 == b2 && upper2 / 256 == b3);
    assert(value / 16777216 == b3) by {
        assert(value / 16777216 == (value / 65536) / 256);
    }
    assert(le_bytes(value as u32) =~= prefix);
}

/// Framing a message and taking the frame apart again gives the message
/// back, whatever follows the frame on the wire.
pub proof fn lemma_frame_round_trip(payload: Seq<u8>, rest: Seq<u8>)
    requires
        payload.len() <= u32::MAX,
    ensures
        has_frame(framed(payload) + rest),
        frame_payload(framed(payload) + rest) == payload,
        4 + le_value(framed(payload) + rest) == framed(payload).len(),
{
    let wire = framed(payload) + rest;
    lemma_length_round_trip(payload.len() as u32);
    assert(wire.subrange(0, 4) =~= le_bytes(payload.len() as u32));
    assert(le_value(wire) == le_value(le_bytes(payload.len() as u32)));
    assert(frame_payload(wire) =~= payload);
}

/// What a client is waiting for.
#[derive(Clone, Copy, Debug, PartialEq, Eq)]
pub enum Awaiting {
    /// The acknowledgement that generation has started.
    Started,
    /// The report that generation and playback are complete.
    Finished,
    /// The acknowledgement that playback was stopped.
    Stopped,
}

/// Why a request failed.
#[derive(Debug, Clone, PartialEq, Eq)]
pub enum ClientError {
    /// The synthesis process reported an error.
    Tts(String),
    /// The synthesis process answered out of turn.
    UnexpectedResponse(TtsResponse),
}

/// What a client does after a response.
#[derive(Debug, Clone, PartialEq, Eq)]
pub enum ClientOutcome {
    /// The request goes on: read another response.
    AwaitNext(Awaiting),
    /// The request is complete.
    Completed,
    /// The request failed.
    Failed(ClientError),
}

/// What a client does after a response, as a mathematical value.
pub enum ClientOutcomeView {
    AwaitNext(Awaiting),
    Completed,
    FailedTts(Seq<char>),
    FailedUnexpected(TtsResponseView),
}

impl ClientOutcome {
    /// The outcome as a mathematical value.
    pub open spec fn view(&self) -> ClientOutcomeView {
        match self {
            ClientOutcome::AwaitNext(awaiting) => ClientOutcomeView::AwaitNext(*awaiting),
            ClientOutcome::Completed => ClientOutcomeView::Completed,
            ClientOutcome::Failed(ClientError::Tts(message)) => ClientOutcomeView::FailedTts(
                message@,
            ),
            ClientOutcome::Failed(ClientError::UnexpectedResponse(response)) => {
                ClientOutcomeView::FailedUnexpected(response@)
            },
        }
    }
}

/// The first response a client waits for after sending `command`.
pub open spec fn awaited_after(command: TtsCommandView) -> Awaiting {
    match command {
        TtsCommandView::GenerateAudio(_) => Awaiting::Started,
        TtsCommandView::Stop => Awaiting::Stopped,
        TtsCommandView::WaitUntilFinished => Awaiting::Finished,
    }
}

/// What a response means to a client that is waiting for `awaiting`: the
/// awaited response moves the request on, an error report fails it with the
/// reported message, anything else fails it as out of turn.
pub open spec fn response_meaning(awaiting: Awaiting, response: TtsResponseView)
    -> ClientOutcomeView {
    match (awaiting, response) {
        (_, TtsResponseView::Error(message)) => ClientOutcomeView::FailedTts(message),
        (Awaiting::Started, TtsResponseView::Started) => ClientOutcomeView::AwaitNext(
            Awaiting::Finished,
        ),
        (Awaiting::Finished, TtsResponseView::Finished) => ClientOutcomeView::Completed,
        (Awaiting::Stopped, TtsResponseView::Stopped) => ClientOutcomeView::Completed,
        (_, other) => ClientOutcomeView::FailedUnexpected(other),
    }
}

/// The first response to wait for after sending `command`.
pub fn first_expectation(command: &TtsCommand) -> (awaiting: Awaiting)
    ensures
        awaiting == awaited_after(command@),
{
    match command {
        TtsCommand::GenerateAudio(_) => Awaiting::Started,
        TtsCommand::Stop => Awaiting::Stopped,
        TtsCommand::WaitUntilFinished => Awaiting::Finished,
    }
}

/// Decides what a response means to a client that is waiting for `awaiting`.
pub fn interpret_response(awaiting: Awaiting, response: TtsResponse) -> (outcome: ClientOutcome)
    ensures
        outcome@ == response_meaning(awaiting, response@),
{
    match response {
        TtsResponse::Error(message) => ClientOutcome::Failed(ClientError::Tts(message)),
        TtsResponse::Started => match awaiting {
            Awaiting::Started => ClientOutcome::AwaitNext(Awaiting::Finished),
            _ => ClientOutcome::Failed(ClientError::UnexpectedResponse(TtsResponse::Started)),
        },
        TtsResponse::Finished => match awaiting {
            Awaiting::Finished => ClientOutcome::Completed,
            _ => ClientOutcome::Failed(ClientError::UnexpectedResponse(TtsResponse::Finished)),
        },
        TtsResponse::Stopped => match awaiting {
            Awaiting::Stopped => ClientOutcome::Completed,
            _ => ClientOutcome::Failed(ClientError::UnexpectedResponse(TtsResponse::Stopped)),
        },
        TtsResponse::ChunkGenerated(sequence) => ClientOutcome::Failed(
            ClientError::UnexpectedResponse(TtsResponse::ChunkGenerated(sequence)),
        ),
    }
}

/// Number of pauses a client waits for the socket of the synthesis
/// process before it gives up.
pub const MAX_SOCKET_ATTEMPTS: u32 = 500;

/// What a client does next while the synthesis process starts up.
#[derive(Clone, Copy, Debug, PartialEq, Eq)]
pub enum StartupStep {
    /// The socket is there: connect.
    Connect,
    /// Pause, then look again.
    Wait,
    /// The process has exited: fail with what it printed.
    FailExited,
    /// The socket did not appear in time: stop the process and fail.
    FailTimedOut,
}

/// What a client does next while the synthesis process starts up, given
/// whether the process was seen to have exited after the last pause,
/// whether the socket exists, and how many pauses have been made.
pub open spec fn startup_decision(process_exited: bool, socket_exists: bool, attempts: u32)
    -> StartupStep {
    if process_exited {
        StartupStep::FailExited
    } else if socket_exists {
        StartupStep::Connect
    } else if attempts < MAX_SOCKET_ATTEMPTS {
        StartupStep::Wait
    } else {
        StartupStep::FailTimedOut
    }
}

/// Decides what a client does next while the synthesis process starts up.
pub fn startup_step(process_exited: bool, socket_exists: bool, attempts: u32) -> (step: StartupStep)
    ensures
        step == startup_decision(process_exited, socket_exists, attempts),
{
    if process_exited {
        StartupStep::FailExited
    } else if socket_exists {
        StartupStep::Connect
    } else if attempts < MAX_SOCKET_ATTEMPTS {
        StartupStep::Wait
    } else {
        StartupStep::FailTimedOut
    }
}

/// The name of the socket file of the client process `process_id`.
pub open spec fn socket_name(process_id: u32) -> Seq<char> {
    "voice-assistant-tts-"@ + decimal_text(process_id as nat) + ".sock"@
}

/// Names the socket file of a client process; the name embeds the process
/// id, so that each client has a socket of its own.
pub fn socket_file_name(process_id: u32) -> (name: String)
    ensures
        name@ == socket_name(process_id),
{
    let mut name = String::from_str("voice-assistant-tts-");
    let id = decimal_string(process_id as u64);
    name.append(id.as_str());
    name.append(".sock");
    name
}

} // verus!
