use voice_assistant::capture::{
    describe_config, describe_failure, generate_candidate_configs, stream_failure_report,
    CandidateConfig, SampleKind, SupportedRange,
};
use voice_assistant::clock::{describe_time, get_current_time, WallClock};
use voice_assistant::commands::{
    execute_intent, intent_of, lights_reply, normalize_area_name, parse_timer_duration,
    CommandAction, DurationSegment, Intent, ParsedCommand, TimeUnit,
};
use voice_assistant::text::{
    chars_text, find_chars, keep_marked, mark_white_space, parse_decimal, replace_char,
    split_marked, split_text, text_chars, trim_marked, trim_text,
};
use voice_assistant::timer::{TimerEvent, TimerManager};
use voice_assistant::transcript::{
    clean_text_segments, concat_segments, mark_kept, strip_activation, tidy_text, SpeechSegment,
};
use voice_assistant::weather::{weather_code_to_string, weather_setup_notice};

fn segment(number: &str, unit: TimeUnit) -> DurationSegment {
    DurationSegment { number: number.to_string(), unit }
}

fn spoken(text: &str) -> SpeechSegment {
    SpeechSegment { start_timestamp: 0, end_timestamp: 100, text: text.to_string() }
}

#[test]
fn parse_decimal_reads_digits_only() {
    assert_eq!(parse_decimal("0"), Some(0));
    assert_eq!(parse_decimal("007"), Some(7));
    assert_eq!(parse_decimal("+12"), Some(12));
    assert_eq!(parse_decimal("18446744073709551615"), Some(u64::MAX));
    assert_eq!(parse_decimal("18446744073709551616"), None);
    assert_eq!(parse_decimal(""), None);
    assert_eq!(parse_decimal("+"), None);
    assert_eq!(parse_decimal("-1"), None);
    assert_eq!(parse_decimal("1 "), None);
    assert_eq!(parse_decimal("1a"), None);
    assert_eq!(parse_decimal("１２"), None);
    assert_eq!(parse_decimal("++1"), None);
    for text in ["0", "007", "+12", "", "+", "-1", "1 ", "١٢", "99999999999999999999"] {
        assert_eq!(parse_decimal(text), text.parse::<u64>().ok());
    }
}

#[test]
fn replace_char_replaces_every_occurrence() {
    assert_eq!(replace_char("a b  c", ' ', '_'), "a_b__c");
    assert_eq!(replace_char("", ' ', '_'), "");
    assert_eq!(replace_char("küche süd", ' ', '_'), "küche_süd");
}

#[test]
fn find_chars_finds_the_first_occurrence() {
    let chars = |text: &str| text.chars().collect::<Vec<char>>();
    assert_eq!(find_chars(&chars("abcabc"), &chars("bc")), Some(1));
    assert_eq!(find_chars(&chars("abcabc"), &chars("")), Some(0));
    assert_eq!(find_chars(&chars("abc"), &chars("abcd")), None);
    assert_eq!(find_chars(&chars("abc"), &chars("abc")), Some(0));
    assert_eq!(find_chars(&chars("aab"), &chars("ab")), Some(1));
    assert_eq!(find_chars(&chars("abc"), &chars("x")), None);
    assert_eq!(find_chars(&chars(""), &chars("")), Some(0));
}

#[test]
fn normalize_area_name_gives_area_ids() {
    assert_eq!(normalize_area_name("living room"), "living_room");
    assert_eq!(normalize_area_name("bedroom"), "bedroom");
    assert_eq!(normalize_area_name("hallway"), "hallway");
    assert_eq!(normalize_area_name("kitchen"), "kitchen");
    assert_eq!(normalize_area_name("  dining room \n"), "dining_room");
    assert_eq!(normalize_area_name("guest bath room"), "guest_bath_room");
    assert_eq!(normalize_area_name(""), "");
}

#[test]
fn lights_reply_names_the_area() {
    assert_eq!(lights_reply(true, &None), "Lights turned on");
    assert_eq!(lights_reply(false, &None), "Lights turned off");
    assert_eq!(
        lights_reply(true, &Some("living_room".to_string())),
        "Lights turned on in living room"
    );
    assert_eq!(lights_reply(false, &Some("bedroom".to_string())), "Lights turned off in bedroom");
}

#[test]
fn timer_duration_adds_up_its_segments() {
    assert_eq!(parse_timer_duration(&vec![segment("10", TimeUnit::Minute)]), Some(600));
    assert_eq!(parse_timer_duration(&vec![segment("five", TimeUnit::Minute)]), Some(300));
    assert_eq!(
        parse_timer_duration(&vec![
            segment("one", TimeUnit::Hour),
            segment("thirty five", TimeUnit::Minute)
        ]),
        Some(5700)
    );
    assert_eq!(parse_timer_duration(&vec![segment(" Ten ", TimeUnit::Second)]), Some(10));
    assert_eq!(parse_timer_duration(&vec![]), None);
    assert_eq!(parse_timer_duration(&vec![segment("zero", TimeUnit::Hour)]), None);
    assert_eq!(
        parse_timer_duration(&vec![segment("one", TimeUnit::Hour), segment("some", TimeUnit::Minute)]),
        None
    );
    assert_eq!(
        parse_timer_duration(&vec![segment("18446744073709551615", TimeUnit::Minute)]),
        None
    );
    assert_eq!(
        parse_timer_duration(&vec![
            segment("18446744073709551615", TimeUnit::Second),
            segment("one", TimeUnit::Second)
        ]),
        None
    );
}

#[test]
fn intent_of_reads_timer_requests() {
    let minutes = |number: &str| Some(vec![segment(number, TimeUnit::Minute)]);
    assert_eq!(
        intent_of(&ParsedCommand::SetTimer { duration: minutes("10"), name: None }),
        Intent::SetTimer { duration_secs: 600, name: None }
    );
    assert_eq!(
        intent_of(&ParsedCommand::SetTimer { duration: minutes("five"), name: None }),
        Intent::SetTimer { duration_secs: 300, name: None }
    );
    assert_eq!(
        intent_of(&ParsedCommand::SetTimer {
            duration: Some(vec![
                segment("one", TimeUnit::Hour),
                segment("thirty five", TimeUnit::Minute)
            ]),
            name: None
        }),
        Intent::SetTimer { duration_secs: 5700, name: None }
    );
    assert_eq!(
        intent_of(&ParsedCommand::SetTimer {
            duration: minutes("five"),
            name: Some(" pizza ".to_string())
        }),
        Intent::SetTimer { duration_secs: 300, name: Some("pizza".to_string()) }
    );
    assert_eq!(
        intent_of(&ParsedCommand::SetTimer { duration: None, name: Some("pizza".to_string()) }),
        Intent::Unknown
    );
    assert_eq!(
        intent_of(&ParsedCommand::SetTimer { duration: minutes("none"), name: None }),
        Intent::Unknown
    );
    assert_eq!(
        intent_of(&ParsedCommand::CancelTimer { duration: minutes("five"), name: Some("x".to_string()) }),
        Intent::CancelTimerByDuration { duration_secs: 300 }
    );
    assert_eq!(
        intent_of(&ParsedCommand::CancelTimer { duration: None, name: Some("pizza ".to_string()) }),
        Intent::CancelTimer { name: Some("pizza".to_string()) }
    );
    assert_eq!(
        intent_of(&ParsedCommand::CancelTimer { duration: None, name: None }),
        Intent::CancelTimer { name: None }
    );
}

#[test]
fn intent_of_reads_the_other_commands() {
    assert_eq!(
        intent_of(&ParsedCommand::TurnOnLights { area: Some("living room".to_string()) }),
        Intent::TurnOnLight { area: Some("living_room".to_string()) }
    );
    assert_eq!(
        intent_of(&ParsedCommand::TurnOffLights { area: None }),
        Intent::TurnOffLight { area: None }
    );
    assert_eq!(intent_of(&ParsedCommand::CurrentTime), Intent::GetCurrentTime);
    assert_eq!(intent_of(&ParsedCommand::Weather), Intent::GetWeather);
    assert_eq!(intent_of(&ParsedCommand::GetTimers), Intent::GetTimers);
    assert_eq!(intent_of(&ParsedCommand::CancelAllTimers), Intent::CancelAllTimers);
    assert_eq!(intent_of(&ParsedCommand::Unrecognized), Intent::Unknown);
}

#[test]
fn timers_are_set_and_reported() {
    let mut timers = TimerManager::new();
    assert_eq!(timers.get_timers(0), "No timers are set");
    assert!(timers.can_set_timer());
    let first = timers.set_timer(600, None, 100);
    assert_eq!(first.id, 1);
    assert_eq!(first.message, "Timer set for ten minutes");
    let second = timers.set_timer(5700, Some("pizza".to_string()), 130);
    assert_eq!(second.id, 2);
    assert_eq!(second.message, "Timer pizza set for one hour and thirty five minutes");
    assert_eq!(timers.len(), 2);
    assert_eq!(
        timers.get_timers(160),
        "nine minutes remaining. pizza: one hour and thirty four minutes and thirty seconds remaining"
    );
    assert_eq!(
        timers.get_timers(100_000),
        "zero seconds remaining. pizza: zero seconds remaining"
    );
    assert_eq!(
        timers.get_timers(0),
        "ten minutes remaining. pizza: one hour and thirty five minutes remaining"
    );
}

#[test]
fn timers_are_cancelled_by_name() {
    let mut timers = TimerManager::new();
    timers.set_timer(60, Some("Eggs".to_string()), 0);
    timers.set_timer(120, Some("pizza".to_string()), 0);
    timers.set_timer(180, Some("PIZZA".to_string()), 0);
    assert_eq!(timers.cancel_timer_by_name("tea"), "No timer found with name tea");
    assert_eq!(timers.len(), 3);
    assert_eq!(timers.cancel_timer_by_name("Pizza"), "Cancelled timer pizza");
    assert!(timers.is_active(3));
    assert!(!timers.is_active(2));
    assert_eq!(timers.cancel_timer_by_name("pizza"), "Cancelled timer PIZZA");
    // No timer goes by the name, but only one is left.
    assert_eq!(timers.cancel_timer_by_name("tea"), "Cancelled timer Eggs");
    assert_eq!(timers.len(), 0);
    assert_eq!(timers.cancel_timer_by_name("tea"), "No timer found with name tea");
}

#[test]
fn unnamed_timer_is_called_by_its_duration() {
    let mut timers = TimerManager::new();
    timers.set_timer(90, None, 0);
    assert_eq!(timers.cancel_timer_by_name("x"), "Cancelled timer one minute and thirty seconds");
}

#[test]
fn timers_are_cancelled_by_duration() {
    let mut timers = TimerManager::new();
    timers.set_timer(300, Some("tea".to_string()), 0);
    timers.set_timer(300, None, 0);
    assert_eq!(timers.cancel_timer_by_duration(60), "No timer found for one minute");
    assert_eq!(timers.cancel_timer_by_duration(300), "Cancelled timer tea");
    assert_eq!(timers.cancel_timer_by_duration(300), "Cancelled timer five minutes");
    assert_eq!(timers.cancel_timer_by_duration(300), "No timer found for five minutes");
}

#[test]
fn all_timers_are_cancelled_at_once() {
    let mut timers = TimerManager::new();
    assert_eq!(timers.cancel_all_timers(), "No timers to cancel");
    timers.set_timer(1, None, 0);
    assert_eq!(timers.cancel_all_timers(), "Cancelled 1 timer");
    for _ in 0..12 {
        timers.set_timer(1, None, 0);
    }
    assert_eq!(timers.cancel_all_timers(), "Cancelled 12 timers");
    assert_eq!(timers.len(), 0);
}

#[test]
fn only_timer_is_cancelled_when_alone() {
    let mut timers = TimerManager::new();
    assert_eq!(timers.cancel_only_timer(), "No timers to cancel");
    timers.set_timer(1, Some("a".to_string()), 0);
    timers.set_timer(2, Some("b".to_string()), 0);
    assert_eq!(
        timers.cancel_only_timer(),
        "Multiple timers are set. Please specify which timer to cancel."
    );
    assert_eq!(timers.len(), 2);
    assert!(timers.expire(1).is_some());
    assert_eq!(timers.cancel_only_timer(), "Cancelled timer b");
}

#[test]
fn expired_timer_gives_its_notice_once() {
    let mut timers = TimerManager::new();
    let set = timers.set_timer(5, Some("tea".to_string()), 0);
    let other = timers.set_timer(5, None, 0);
    assert_eq!(timers.expire(set.id), Some(TimerEvent { name: Some("tea".to_string()) }));
    assert_eq!(timers.expire(set.id), None);
    assert_eq!(timers.cancel_timer_by_duration(5), "Cancelled timer five seconds");
    assert_eq!(timers.expire(other.id), None);
    assert_eq!(timers.expire(99), None);
}

#[test]
fn execute_intent_answers_or_asks_for_action() {
    let mut timers = TimerManager::new();
    assert_eq!(
        execute_intent(Intent::Unknown, &mut timers, 0),
        CommandAction::Say("Unknown command".to_string())
    );
    assert_eq!(execute_intent(Intent::GetCurrentTime, &mut timers, 0), CommandAction::TellTime);
    assert_eq!(execute_intent(Intent::GetWeather, &mut timers, 0), CommandAction::TellWeather);
    assert_eq!(
        execute_intent(Intent::TurnOnLight { area: Some("living_room".to_string()) }, &mut timers, 0),
        CommandAction::SwitchLights {
            on: true,
            area: Some("living_room".to_string()),
            reply: "Lights turned on in living room".to_string()
        }
    );
    assert_eq!(
        execute_intent(Intent::TurnOffLight { area: None }, &mut timers, 0),
        CommandAction::SwitchLights { on: false, area: None, reply: "Lights turned off".to_string() }
    );
    assert_eq!(
        execute_intent(Intent::SetTimer { duration_secs: 600, name: None }, &mut timers, 7),
        CommandAction::TimerStarted {
            id: 1,
            duration_secs: 600,
            reply: "Timer set for ten minutes".to_string()
        }
    );
    assert_eq!(
        execute_intent(Intent::GetTimers, &mut timers, 67),
        CommandAction::Say("nine minutes remaining".to_string())
    );
    assert_eq!(
        execute_intent(Intent::CancelTimerByDuration { duration_secs: 1 }, &mut timers, 0),
        CommandAction::Say("No timer found for one second".to_string())
    );
    assert_eq!(
        execute_intent(Intent::CancelTimer { name: Some("tea".to_string()) }, &mut timers, 0),
        CommandAction::Say("Cancelled timer ten minutes".to_string())
    );
    assert_eq!(
        execute_intent(Intent::CancelTimer { name: None }, &mut timers, 0),
        CommandAction::Say("No timers to cancel".to_string())
    );
    assert_eq!(
        execute_intent(Intent::CancelAllTimers, &mut timers, 0),
        CommandAction::Say("No timers to cancel".to_string())
    );
}

#[test]
fn describe_time_says_time_and_date() {
    assert_eq!(
        describe_time(WallClock { hour: 0, minute: 5, month: 1, day: 1 }),
        "It is twelve five AM. Date is January one."
    );
    assert_eq!(
        describe_time(WallClock { hour: 12, minute: 0, month: 12, day: 31 }),
        "It is twelve zero PM. Date is December thirty one."
    );
    assert_eq!(
        describe_time(WallClock { hour: 15, minute: 42, month: 6, day: 20 }),
        "It is three forty two PM. Date is June twenty."
    );
    let months = [
        "January", "February", "March", "April", "May", "June", "July", "August", "September",
        "October", "November", "December",
    ];
    for (i, month) in months.iter().enumerate() {
        let sentence = describe_time(WallClock { hour: 11, minute: 59, month: i as u32 + 1, day: 2 });
        assert_eq!(sentence, format!("It is eleven fifty nine AM. Date is {} two.", month));
    }
}

#[test]
fn get_current_time_reads_the_clock() {
    let sentence = get_current_time();
    assert!(sentence.starts_with("It is "));
    assert!(sentence.contains(" AM. Date is ") || sentence.contains(" PM. Date is "));
    assert!(sentence.ends_with('.'));
}

#[test]
fn weather_codes_are_described() {
    assert_eq!(weather_code_to_string(0), "Clear sky");
    assert_eq!(weather_code_to_string(3), "Overcast");
    assert_eq!(weather_code_to_string(45), "Foggy");
    assert_eq!(weather_code_to_string(48), "Foggy");
    assert_eq!(weather_code_to_string(67), "Freezing Rain, heavy intensity");
    assert_eq!(weather_code_to_string(99), "Thunderstorm with heavy hail");
    assert_eq!(weather_code_to_string(4), "Unknown weather condition");
    assert_eq!(weather_code_to_string(-1), "Unknown weather condition");
}

#[test]
fn weather_setup_notice_names_what_is_missing() {
    assert_eq!(weather_setup_notice(true, true), None);
    assert_eq!(weather_setup_notice(true, false), Some("Weather longitude is not set".to_string()));
    assert_eq!(weather_setup_notice(false, true), Some("Weather latitude is not set".to_string()));
    assert_eq!(
        weather_setup_notice(false, false),
        Some(
            "Weather service is not configured. Please set weather latitude and longitude"
                .to_string()
        )
    );
}

#[test]
fn candidates_follow_the_reported_ranges() {
    let supported = vec![
        SupportedRange {
            channels: 2,
            min_sample_rate: 44100,
            max_sample_rate: 48000,
            sample_format: SampleKind::Int16,
        },
        SupportedRange {
            channels: 2,
            min_sample_rate: 16000,
            max_sample_rate: 44100,
            sample_format: SampleKind::Float32,
        },
        SupportedRange {
            channels: 1,
            min_sample_rate: 8000,
            max_sample_rate: 8000,
            sample_format: SampleKind::Float32,
        },
    ];
    let config = |channels: u16, sample_rate: u32, sample_format: SampleKind| CandidateConfig {
        channels,
        sample_rate,
        sample_format,
    };
    assert_eq!(
        generate_candidate_configs(&supported),
        vec![
            config(2, 44100, SampleKind::Float32),
            config(2, 32000, SampleKind::Float32),
            config(2, 16000, SampleKind::Float32),
            config(2, 48000, SampleKind::Int16),
            config(2, 44100, SampleKind::Int16),
            config(1, 16000, SampleKind::Int16),
            config(1, 8000, SampleKind::Float32),
            config(1, 8000, SampleKind::Int16),
            config(1, 48000, SampleKind::Float32),
        ]
    );
}

#[test]
fn candidates_fall_back_when_nothing_is_reported() {
    let config = |sample_rate: u32, sample_format: SampleKind| CandidateConfig {
        channels: 1,
        sample_rate,
        sample_format,
    };
    let fallbacks = vec![
        config(16000, SampleKind::Float32),
        config(16000, SampleKind::Int16),
        config(8000, SampleKind::Float32),
        config(8000, SampleKind::Int16),
        config(48000, SampleKind::Float32),
    ];
    assert_eq!(generate_candidate_configs(&Vec::new()), fallbacks);
    let other = vec![SupportedRange {
        channels: 4,
        min_sample_rate: 1,
        max_sample_rate: 2,
        sample_format: SampleKind::Other,
    }];
    assert_eq!(generate_candidate_configs(&other), fallbacks);
}

#[test]
fn unreported_range_admits_every_preferred_rate() {
    for max_sample_rate in [0, u32::MAX] {
        let supported = vec![SupportedRange {
            channels: 1,
            min_sample_rate: 100_000,
            max_sample_rate,
            sample_format: SampleKind::Float32,
        }];
        let rates: Vec<u32> = generate_candidate_configs(&supported)
            .iter()
            .map(|candidate| candidate.sample_rate)
            .collect();
        assert_eq!(rates, vec![48000, 44100, 32000, 16000, 8000, 16000, 8000]);
    }
}

#[test]
fn failed_attempts_are_reported() {
    let config = CandidateConfig { channels: 1, sample_rate: 16000, sample_format: SampleKind::Float32 };
    let stereo = CandidateConfig { channels: 2, sample_rate: 44100, sample_format: SampleKind::Int16 };
    assert_eq!(describe_config(&config), "F32 @ 16000Hz (1 channel)");
    assert_eq!(describe_config(&stereo), "I16 @ 44100Hz (2 channels)");
    let first = describe_failure(&config, "device busy");
    assert_eq!(first, "  Error: F32 @ 16000Hz (1 channel) - device busy");
    let second = describe_failure(&stereo, "unsupported");
    assert_eq!(
        stream_failure_report(&vec![first, second]),
        "Failed to create audio stream with any configuration. Attempted 2 configurations:\n  Error: F32 @ 16000Hz (1 channel) - device busy\n  Error: I16 @ 44100Hz (2 channels) - unsupported"
    );
    assert_eq!(
        stream_failure_report(&Vec::new()),
        "Failed to create audio stream with any configuration. Attempted 0 configurations:\n"
    );
}

#[test]
fn segments_are_joined_without_separator() {
    assert_eq!(concat_segments(&vec![spoken(" Alexa,"), spoken(" turn on")]), " Alexa, turn on");
    assert_eq!(concat_segments(&Vec::new()), "");
}

#[test]
fn tidy_text_drops_punctuation_and_collapses_space() {
    assert_eq!(tidy_text("alexa,  turn\ton the  lights!"), "alexa turn on the lights");
    assert_eq!(tidy_text("  it's 5 o'clock "), "its 5 oclock");
    assert_eq!(tidy_text("?!"), "");
}

#[test]
fn strip_activation_keeps_what_follows() {
    assert_eq!(strip_activation("hey alexa turn on lights", "alexa"), "turn on lights");
    assert_eq!(strip_activation("turn on lights", "alexa"), "turn on lights");
    assert_eq!(strip_activation("alexa", "alexa"), "");
    assert_eq!(strip_activation("alexa alexa stop", "alexa"), "alexa stop");
    assert_eq!(strip_activation(" padded ", ""), "padded");
}

#[test]
fn transcript_becomes_a_command() {
    let segments = vec![spoken(" Alexa,"), spoken(" What Time"), spoken(" is it? ")];
    assert_eq!(clean_text_segments(segments, "alexa"), "what time is it");
    assert_eq!(clean_text_segments(vec![spoken("Set a timer.")], "alexa"), "set a timer");
    assert_eq!(clean_text_segments(Vec::new(), "alexa"), "");
}

#[test]
fn trim_text_removes_surrounding_white_space() {
    assert_eq!(trim_text("  a b \n"), "a b");
    assert_eq!(trim_text("\u{a0}x\u{3000}"), "x");
    assert_eq!(trim_text(" \t "), "");
    assert_eq!(trim_text(""), "");
    assert_eq!(trim_text("x"), "x");
    for text in ["  a b \n", "\u{2003}x y\u{85}", "", "   ", "a", " a", "a "] {
        assert_eq!(trim_text(text), text.trim());
    }
}

#[test]
fn split_text_gives_the_words() {
    assert_eq!(split_text("one two"), vec!["one", "two"]);
    assert_eq!(split_text("  one \t\n two  "), vec!["one", "two"]);
    assert_eq!(split_text("one"), vec!["one"]);
    assert!(split_text("").is_empty());
    assert!(split_text(" \n ").is_empty());
    for text in ["a  b c", " a", "a ", "\u{3000}h\u{e9} ho\u{2003}", "x"] {
        let expected: Vec<String> = text.split_whitespace().map(String::from).collect();
        assert_eq!(split_text(text), expected);
    }
}

#[test]
fn text_chars_gives_the_characters() {
    assert_eq!(text_chars("h\u{e9}!"), vec!['h', '\u{e9}', '!']);
    assert!(text_chars("").is_empty());
}

#[test]
fn marks_decide_what_is_trimmed_split_and_kept() {
    let chars: Vec<char> = "..ab.cd.".chars().collect();
    let dots: Vec<bool> = chars.iter().map(|c| *c == '.').collect();
    assert_eq!(chars_text(&trim_marked(&chars, &dots)), "ab.cd");
    assert_eq!(split_marked(&chars, &dots), vec!["ab", "cd"]);
    let letters: Vec<bool> = dots.iter().map(|dot| !dot).collect();
    assert_eq!(chars_text(&keep_marked(&chars, &letters)), "abcd");
    assert_eq!(chars_text(&keep_marked(&chars, &dots)), "....");
    let all = vec![true; chars.len()];
    assert!(trim_marked(&chars, &all).is_empty());
    assert!(split_marked(&chars, &all).is_empty());
    let none = vec![false; chars.len()];
    assert_eq!(chars_text(&trim_marked(&chars, &none)), "..ab.cd.");
    assert_eq!(split_marked(&chars, &none), vec!["..ab.cd."]);
    assert!(trim_marked(&Vec::new(), &Vec::new()).is_empty());
}

#[test]
fn white_space_and_command_characters_are_marked() {
    let chars: Vec<char> = "a \t\u{a0}1!\u{e9}".chars().collect();
    assert_eq!(mark_white_space(&chars), vec![false, true, true, true, false, false, false]);
    assert_eq!(mark_kept(&chars), vec![true, true, true, true, true, false, true]);
}

#[test]
fn marked_timers_are_cancelled_oldest_first() {
    let mut timers = TimerManager::new();
    timers.set_timer(60, Some("Tea".to_string()), 0);
    timers.set_timer(120, Some("eggs".to_string()), 0);
    timers.set_timer(180, Some("TEA".to_string()), 0);
    assert_eq!(timers.mark_named("tea"), vec![true, false, true]);
    assert_eq!(timers.mark_named("Eggs"), vec![false, true, false]);
    assert_eq!(timers.mark_named("x"), vec![false, false, false]);
    assert_eq!(
        timers.cancel_marked_timer(&vec![false, true, true], "anything"),
        "Cancelled timer eggs"
    );
    assert_eq!(
        timers.cancel_marked_timer(&vec![false, false], "ham"),
        "No timer found with name ham"
    );
    assert_eq!(timers.cancel_marked_timer(&vec![false, true], "x"), "Cancelled timer TEA");
    assert_eq!(timers.cancel_marked_timer(&vec![false], "x"), "Cancelled timer Tea");
    assert_eq!(timers.cancel_marked_timer(&Vec::new(), "x"), "No timer found with name x");
}
