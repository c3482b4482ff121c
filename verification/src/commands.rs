//! Spoken commands: what was meant, and what to do and say about it.
//!
//! Recognising a command in a text is left to a grammar outside this crate.
//! Here a recognised command is turned into an answer, or into the action
//! that has to be taken before an answer can be given.

use vstd::prelude::*;
use vstd::string::StringExecFns;
use crate::human_format::{number_value, words_to_int};
use crate::text::{lowercase, replace_char, replaced, trim_text, trimmed};
use crate::timer::{
    after_cancel, cancelled_all_message, cancelled_message, is_oldest_lasting, name_marks,
    none_lasting, set_message, timers_report, TimerManager, TimerView,
};

verus! {

/// What a spoken command asks for.
#[derive(Debug, Clone, PartialEq, Eq)]
pub enum Intent {
    /// Turn the lights on, in one area or everywhere.
    TurnOnLight { area: Option<String> },
    /// Turn the lights off, in one area or everywhere.
    TurnOffLight { area: Option<String> },
    /// Tell the time.
    GetCurrentTime,
    /// Tell the weather.
    GetWeather,
    /// Set a timer.
    SetTimer { duration_secs: u64, name: Option<String> },
    /// Report on the running timers.
    GetTimers,
    /// Cancel a timer by name, or the only timer.
    CancelTimer { name: Option<String> },
    /// Cancel the timer set for a duration.
    CancelTimerByDuration { duration_secs: u64 },
    /// Cancel every timer.
    CancelAllTimers,
    /// The command was not understood.
    Unknown,
}

/// A unit of time in a spoken duration.
#[derive(Clone, Copy, Debug, PartialEq, Eq)]
pub enum TimeUnit {
    Second,
    Minute,
    Hour,
}

/// One part of a spoken duration: "thirty five" and "minutes".
#[derive(Debug, Clone, PartialEq, Eq)]
pub struct DurationSegment {
    /// The number as it was said, in words or digits.
    pub number: String,
    /// The unit it counts.
    pub unit: TimeUnit,
}

/// The seconds in a unit of time.
pub open spec fn unit_seconds(unit: TimeUnit) -> nat {
    match unit {
        TimeUnit::Second => 1,
        TimeUnit::Minute => 60,
        TimeUnit::Hour => 3600,
    }
}

/// The number a segment names, if it names one.
pub open spec fn segment_number(segment: DurationSegment) -> Option<u64> {
    number_value(lowercase(trimmed(segment.number@)))
}

/// The seconds that a run of segments adds up to; none if a segment names
/// no number.
pub open spec fn segments_seconds(segments: Seq<DurationSegment>) -> Option<nat>
    decreases segments.len(),
{
    if segments.len() == 0 {
        Some(0)
    } else {
        match (segments_seconds(segments.drop_last()), segment_number(segments.last())) {
            (Some(earlier), Some(number)) => Some(
                (earlier + number * unit_seconds(segments.last().unit)) as nat,
            ),
            _ => None,
        }
    }
}

/// The duration that a run of segments names: their sum in seconds, if
/// every segment names a number and the sum is positive and fits in 64 bits.
pub open spec fn spoken_duration(segments: Seq<DurationSegment>) -> Option<u64> {
    match segments_seconds(segments) {
        Some(total) => if 0 < total <= u64::MAX {
            Some(total as u64)
        } else {
            None
        },
        None => None,
    }
}

/// Once a segment names no number, the run names no duration.
pub proof fn lemma_segments_fail_for_good(segments: Seq<DurationSegment>, k: int)
    requires
        0 <= k <= segments.len(),
        segments_seconds(segments.take(k)) is None,
    ensures
        segments_seconds(segments) is None,
    decreases segments.len(),
{
    if k == segments.len() {
        assert(segments.take(k) =~= segments);
    } else {
        assert(segments.drop_last().take(k) =~= segments.take(k));
        lemma_segments_fail_for_good(segments.drop_last(), k);
    }
}

/// A longer run of segments adds up to at least as much as its prefixes.
pub proof fn lemma_segments_grow(segments: Seq<DurationSegment>, k: int)
    requires
        0 <= k <= segments.len(),
        segments_seconds(segments) is Some,
    ensures
        segments_seconds(segments.take(k)) is Some,
        segments_seconds(segments.take(k))->0 <= segments_seconds(segments)->0,
    decreases segments.len(),
{
    if k == segments.len() {
        assert(segments.take(k) =~= segments);
    } else {
        assert(segments.drop_last().take(k) =~= segments.take(k));
        lemma_segments_grow(segments.drop_last(), k);
    }
}

/// Adds up a spoken duration in seconds.
pub fn parse_timer_duration(segments: &Vec<DurationSegment>) -> (duration: Option<u64>)
    ensures
        duration == spoken_duration(segments@),
{
    let mut total: u64 = 0;
    let mut i: usize = 0;
    while i < segments.len()
        invariant
            i <= segments.len(),
            segments_seconds(segments@.take(i as int)) == Some(total as nat),
        decreases segments.len() - i,
    {
        let ghost seen = segments@.take(i + 1);
        assert(seen.drop_last() =~= segments@.take(i as int));
        let multiplier: u64 = match segments[i].unit {
            TimeUnit::Second => 1,
            TimeUnit::Minute => 60,
            TimeUnit::Hour => 3600,
        };
        let number = match words_to_int(segments[i].number.as_str()) {
            Some(number) => number,
            None => {
                proof {
                    lemma_segments_fail_for_good(segments@, i + 1);
                }
                return None;
            },
        };
        assert(number * multiplier == number * unit_seconds(segments@[i as int].unit))
            by (nonlinear_arith)
            requires
                multiplier == unit_seconds(segments@[i as int].unit),
        ;
        let summed = match number.checked_mul(multiplier) {
            Some(seconds) => total.checked_add(seconds),
            None => None,
        };
        match summed {
            Some(sum) => {
                total = sum;
            },
            None => {
                proof {
                    if segments_seconds(segments@) is Some {
                        lemma_segments_grow(segments@, i + 1);
                    }
                }
                return None;
            },
        }
        i += 1;
    }
    assert(segments@.take(segments.len() as int) =~= segments@);
    if total > 0 {
        Some(total)
    } else {
        None
    }
}

/// The identifier of an area: its name, trimmed, with an underscore for
/// each blank ("living room" is `living_room`).
pub open spec fn area_id(area: Seq<char>) -> Seq<char> {
    replaced(trimmed(area), ' ', '_')
}

/// Turns the name of an area into its identifier.
pub fn normalize_area_name(area: &str) -> (id: String)
    ensures
        id@ == area_id(area@),
{
    let inner = trim_text(area);
    replace_char(inner.as_str(), ' ', '_')
}

/// The answer to switching the lights, naming the area if there is one.
pub open spec fn lights_message(on: bool, area: Option<Seq<char>>) -> Seq<char> {
    let done = if on {
        "Lights turned on"@
    } else {
        "Lights turned off"@
    };
    match area {
        Some(id) => done + " in "@ + replaced(id, '_', ' '),
        None => done,
    }
}

/// The view of an optional string.
pub open spec fn optional_text(text: Option<String>) -> Option<Seq<char>> {
    match text {
        Some(t) => Some(t@),
        None => None,
    }
}

/// Says that the lights were switched.
pub fn lights_reply(on: bool, area: &Option<String>) -> (reply: String)
    ensures
        reply@ == lights_message(on, optional_text(*area)),
{
    let mut reply = String::from_str(if on { "Lights turned on" } else { "Lights turned off" });
    match area {
        Some(id) => {
            reply.append(" in ");
            let name = replace_char(id.as_str(), '_', ' ');
            reply.append(name.as_str());
        },
        None => {},
    }
    reply
}

/// What has to happen for a command.
#[derive(Debug, Clone, PartialEq, Eq)]
pub enum CommandAction {
    /// Nothing but the answer.
    Say(String),
    /// Switch the lights, then give the answer.
    SwitchLights { on: bool, area: Option<String>, reply: String },
    /// Read the clock and tell the time.
    TellTime,
    /// Fetch the forecast and tell the weather.
    TellWeather,
    /// A timer was set: wait for it to run out, and give the answer.
    TimerStarted { id: u64, duration_secs: u64, reply: String },
}

/// Acts on a recognised command as far as the timers go, and says what else
/// has to happen. `now` is the clock reading in seconds.
pub fn execute_intent(intent: Intent, timers: &mut TimerManager, now: u64) -> (action: CommandAction)
    requires
        old(timers).wf(),
        intent is SetTimer ==> old(timers).next_id() < u64::MAX,
    ensures
        final(timers).wf(),
        match intent {
            Intent::TurnOnLight { area } => final(timers)@ == old(timers)@ && match action {
                CommandAction::SwitchLights { on, area: target, reply } => on && target == area
                    && reply@ == lights_message(true, optional_text(area)),
                _ => false,
            },
            Intent::TurnOffLight { area } => final(timers)@ == old(timers)@ && match action {
                CommandAction::SwitchLights { on, area: target, reply } => !on && target == area
                    && reply@ == lights_message(false, optional_text(area)),
                _ => false,
            },
            Intent::GetCurrentTime => final(timers)@ == old(timers)@ && action
                is TellTime,
            Intent::GetWeather => final(timers)@ == old(timers)@ && action is TellWeather,
            Intent::SetTimer { duration_secs, name } => match action {
                CommandAction::TimerStarted { id, duration_secs: set_for, reply } => {
                    &&& id == old(timers).next_id()
                    &&& set_for == duration_secs
                    &&& reply@ == set_message(optional_text(name), duration_secs)
                    &&& final(timers)@ == old(timers)@.push(
                        TimerView {
                            id,
                            name: optional_text(name),
                            duration_secs,
                            started_at: now,
                        },
                    )
                },
                _ => false,
            },
            Intent::GetTimers => final(timers)@ == old(timers)@ && match action {
                CommandAction::Say(reply) => reply@ == timers_report(old(timers)@, now),
                _ => false,
            },
            Intent::CancelTimer { name: Some(name) } => match action {
                CommandAction::Say(reply) => (final(timers)@, reply@) == after_cancel(
                    old(timers)@,
                    name_marks(old(timers)@, name@),
                    name@,
                ),
                _ => false,
            },
            Intent::CancelTimer { name: None } => match action {
                CommandAction::Say(reply) => {
                    &&& old(timers)@.len() == 1 ==> final(timers)@ == Seq::<TimerView>::empty()
                        && reply@ == cancelled_message(old(timers)@[0])
                    &&& old(timers)@.len() == 0 ==> final(timers)@ == old(timers)@ && reply@
                        == "No timers to cancel"@
                    &&& old(timers)@.len() > 1 ==> final(timers)@ == old(timers)@ && reply@
                        == "Multiple timers are set. Please specify which timer to cancel."@
                },
                _ => false,
            },
            Intent::CancelTimerByDuration { duration_secs } => match action {
                CommandAction::Say(reply) => {
                    &&& none_lasting(old(timers)@, duration_secs) ==> final(timers)@ == old(timers)@ && reply@ == "No timer found for "@ + crate::human_format::duration_phrase(
                        duration_secs as nat,
                    )
                    &&& forall|index: int|
                        is_oldest_lasting(old(timers)@, duration_secs, index) ==> final(timers)@
                            == old(timers)@.remove(index) && reply@ == cancelled_message(
                            old(timers)@[index],
                        )
                },
                _ => false,
            },
            Intent::CancelAllTimers => final(timers)@ == Seq::<TimerView>::empty() && match action {
                CommandAction::Say(reply) => reply@ == cancelled_all_message(old(timers)@.len()),
                _ => false,
            },
            Intent::Unknown => final(timers)@ == old(timers)@ && match action {
                CommandAction::Say(reply) => reply@ == "Unknown command"@,
                _ => false,
            },
        },
{
    match intent {
        Intent::TurnOnLight { area } => {
            let reply = lights_reply(true, &area);
            CommandAction::SwitchLights { on: true, area, reply }
        },
        Intent::TurnOffLight { area } => {
            let reply = lights_reply(false, &area);
            CommandAction::SwitchLights { on: false, area, reply }
        },
        Intent::GetCurrentTime => CommandAction::TellTime,
        Intent::GetWeather => CommandAction::TellWeather,
        Intent::SetTimer { duration_secs, name } => {
            let set = timers.set_timer(duration_secs, name, now);
            CommandAction::TimerStarted { id: set.id, duration_secs, reply: set.message }
        },
        Intent::GetTimers => CommandAction::Say(timers.get_timers(now)),
        Intent::CancelTimer { name } => match name {
            Some(name) => CommandAction::Say(timers.cancel_timer_by_name(name.as_str())),
            None => CommandAction::Say(timers.cancel_only_timer()),
        },
        Intent::CancelTimerByDuration { duration_secs } => CommandAction::Say(
            timers.cancel_timer_by_duration(duration_secs),
        ),
        Intent::CancelAllTimers => CommandAction::Say(timers.cancel_all_timers()),
        Intent::Unknown => CommandAction::Say(String::from_str("Unknown command")),
    }
}

/// A command as a grammar recognises it, before its parts are read.
#[derive(Debug, Clone, PartialEq, Eq)]
pub enum ParsedCommand {
    /// "turn on ... lights", with the area as it was said, if one was.
    TurnOnLights { area: Option<String> },
    /// "turn off ... lights", with the area as it was said, if one was.
    TurnOffLights { area: Option<String> },
    /// A question for the time.
    CurrentTime,
    /// A question for the weather.
    Weather,
    /// A request for a timer, with the duration and the name as they were
    /// said.
    SetTimer { duration: Option<Vec<DurationSegment>>, name: Option<String> },
    /// A question for the running timers.
    GetTimers,
    /// A request to cancel every timer.
    CancelAllTimers,
    /// A request to cancel one timer, told by its duration or its name.
    CancelTimer { duration: Option<Vec<DurationSegment>>, name: Option<String> },
    /// Nothing the grammar knows.
    Unrecognized,
}

/// The duration that was said, if one was said and it names one.
pub open spec fn said_duration(duration: Option<Vec<DurationSegment>>) -> Option<u64> {
    match duration {
        Some(segments) => spoken_duration(segments@),
        None => None,
    }
}

/// The identifier of the area that was said, if one was.
pub open spec fn said_area(area: Option<String>) -> Option<Seq<char>> {
    match area {
        Some(name) => Some(area_id(name@)),
        None => None,
    }
}

/// The name that was said, trimmed, if one was.
pub open spec fn said_name(name: Option<String>) -> Option<Seq<char>> {
    match name {
        Some(n) => Some(trimmed(n@)),
        None => None,
    }
}

/// What a recognised command asks for, as a mathematical value.
pub enum IntentView {
    TurnOnLight { area: Option<Seq<char>> },
    TurnOffLight { area: Option<Seq<char>> },
    GetCurrentTime,
    GetWeather,
    SetTimer { duration_secs: u64, name: Option<Seq<char>> },
    GetTimers,
    CancelTimer { name: Option<Seq<char>> },
    CancelTimerByDuration { duration_secs: u64 },
    CancelAllTimers,
    Unknown,
}

impl Intent {
    /// The intent as a mathematical value.
    pub open spec fn view(&self) -> IntentView {
        match self {
            Intent::TurnOnLight { area } => IntentView::TurnOnLight { area: optional_text(*area) },
            Intent::TurnOffLight { area } => IntentView::TurnOffLight {
                area: optional_text(*area),
            },
            Intent::GetCurrentTime => IntentView::GetCurrentTime,
            Intent::GetWeather => IntentView::GetWeather,
            Intent::SetTimer { duration_secs, name } => IntentView::SetTimer {
                duration_secs: *duration_secs,
                name: optional_text(*name),
            },
            Intent::GetTimers => IntentView::GetTimers,
            Intent::CancelTimer { name } => IntentView::CancelTimer { name: optional_text(*name) },
            Intent::CancelTimerByDuration { duration_secs } => IntentView::CancelTimerByDuration {
                duration_secs: *duration_secs,
            },
            Intent::CancelAllTimers => IntentView::CancelAllTimers,
            Intent::Unknown => IntentView::Unknown,
        }
    }
}

/// What a recognised command asks for. A timer without a duration that
/// names a positive number of seconds is not understood; a timer to cancel
/// is told by its duration if one was said, else by its name.
pub open spec fn meaning(parsed: ParsedCommand) -> IntentView {
    match parsed {
        ParsedCommand::TurnOnLights { area } => IntentView::TurnOnLight { area: said_area(area) },
        ParsedCommand::TurnOffLights { area } => IntentView::TurnOffLight {
            area: said_area(area),
        },
        ParsedCommand::CurrentTime => IntentView::GetCurrentTime,
        ParsedCommand::Weather => IntentView::GetWeather,
        ParsedCommand::SetTimer { duration, name } => match said_duration(duration) {
            Some(duration_secs) => IntentView::SetTimer { duration_secs, name: said_name(name) },
            None => IntentView::Unknown,
        },
        ParsedCommand::GetTimers => IntentView::GetTimers,
        ParsedCommand::CancelAllTimers => IntentView::CancelAllTimers,
        ParsedCommand::CancelTimer { duration, name } => match said_duration(duration) {
            Some(duration_secs) => IntentView::CancelTimerByDuration { duration_secs },
            None => IntentView::CancelTimer { name: said_name(name) },
        },
        ParsedCommand::Unrecognized => IntentView::Unknown,
    }
}

fn read_duration(duration: &Option<Vec<DurationSegment>>) -> (seconds: Option<u64>)
    ensures
        seconds == said_duration(*duration),
{
    match duration {
        Some(segments) => parse_timer_duration(segments),
        None => None,
    }
}

fn read_area(area: &Option<String>) -> (id: Option<String>)
    ensures
        optional_text(id) == said_area(*area),
{
    match area {
        Some(name) => Some(normalize_area_name(name.as_str())),
        None => None,
    }
}

fn read_name(name: &Option<String>) -> (trimmed_name: Option<String>)
    ensures
        optional_text(trimmed_name) == said_name(*name),
{
    match name {
        Some(n) => Some(trim_text(n.as_str())),
        None => None,
    }
}

/// Reads the parts of a recognised command and says what it asks for.
pub fn intent_of(parsed: &ParsedCommand) -> (intent: Intent)
    ensures
        intent@ == meaning(*parsed),
{
    match parsed {
        ParsedCommand::TurnOnLights { area } => Intent::TurnOnLight { area: read_area(area) },
        ParsedCommand::TurnOffLights { area } => Intent::TurnOffLight { area: read_area(area) },
        ParsedCommand::CurrentTime => Intent::GetCurrentTime,
        ParsedCommand::Weather => Intent::GetWeather,
        ParsedCommand::SetTimer { duration, name } => match read_duration(duration) {
            Some(duration_secs) => Intent::SetTimer { duration_secs, name: read_name(name) },
            None => Intent::Unknown,
        },
        ParsedCommand::GetTimers => Intent::GetTimers,
        ParsedCommand::CancelAllTimers => Intent::CancelAllTimers,
        ParsedCommand::CancelTimer { duration, name } => match read_duration(duration) {
            Some(duration_secs) => Intent::CancelTimerByDuration { duration_secs },
            None => Intent::CancelTimer { name: read_name(name) },
        },
        ParsedCommand::Unrecognized => Intent::Unknown,
    }
}

} // verus!
