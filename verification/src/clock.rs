//! Telling the time of day.

use vstd::prelude::*;
use vstd::string::StringExecFns;
use crate::human_format::{cardinal, cardinal_words};

verus! {

/// The reading of a wall clock and calendar.
#[derive(Clone, Copy, Debug, PartialEq, Eq)]
pub struct WallClock {
    /// Hour of the day, 0 to 23.
    pub hour: u32,
    /// Minute of the hour, 0 to 59.
    pub minute: u32,
    /// Month of the year, 1 to 12.
    pub month: u32,
    /// Day of the month, 1 to 31.
    pub day: u32,
}

impl WallClock {
    /// Every field lies in its range.
    pub open spec fn valid(&self) -> bool {
        &&& self.hour <= 23
        &&& self.minute <= 59
        &&& 1 <= self.month <= 12
        &&& 1 <= self.day <= 31
    }
}

/// The name of a month.
pub open spec fn month_name(month: nat) -> Seq<char>
    recommends
        1 <= month <= 12,
{
    if month == 1 {
        "January"@
    } else if month == 2 {
        "February"@
    } else if month == 3 {
        "March"@
    } else if month == 4 {
        "April"@
    } else if month == 5 {
        "May"@
    } else if month == 6 {
        "June"@
    } else if month == 7 {
        "July"@
    } else if month == 8 {
        "August"@
    } else if month == 9 {
        "September"@
    } else if month == 10 {
        "October"@
    } else if month == 11 {
        "November"@
    } else {
        "December"@
    }
}

/// The hour on a twelve-hour dial: midnight and noon are twelve.
pub open spec fn dial_hour(hour: nat) -> nat {
    if hour % 12 == 0 {
        12
    } else {
        hour % 12
    }
}

/// The half of the day an hour falls in.
pub open spec fn day_half(hour: nat) -> Seq<char> {
    if hour < 12 {
        "AM"@
    } else {
        "PM"@
    }
}

/// The sentence that tells time and date.
pub open spec fn time_sentence(clock: WallClock) -> Seq<char> {
    "It is "@ + cardinal(dial_hour(clock.hour as nat)) + " "@ + cardinal(clock.minute as nat)
        + " "@ + day_half(clock.hour as nat) + ". Date is "@ + month_name(clock.month as nat)
        + " "@ + cardinal(clock.day as nat) + "."@
}

fn month_text(month: u32) -> (name: &'static str)
    requires
        1 <= month <= 12,
    ensures
        name@ == month_name(month as nat),
{
    if month == 1 {
        "January"
    } else if month == 2 {
        "February"
    } else if month == 3 {
        "March"
    } else if month == 4 {
        "April"
    } else if month == 5 {
        "May"
    } else if month == 6 {
        "June"
    } else if month == 7 {
        "July"
    } else if month == 8 {
        "August"
    } else if month == 9 {
        "September"
    } else if month == 10 {
        "October"
    } else if month == 11 {
        "November"
    } else {
        "December"
    }
}

/// Says the time and date that `clock` shows.
pub fn describe_time(clock: WallClock) -> (sentence: String)
    requires
        1 <= clock.month <= 12,
    ensures
        sentence@ == time_sentence(clock),
{
    let on_dial: u32 = clock.hour % 12;
    let hour_words = if on_dial == 0 {
        cardinal_words(12)
    } else {
        cardinal_words(on_dial as u64)
    };
    let minute_words = cardinal_words(clock.minute as u64);
    let day_words = cardinal_words(clock.day as u64);
    let mut sentence = String::from_str("It is ");
    sentence.append(hour_words.as_str());
    sentence.append(" ");
    sentence.append(minute_words.as_str());
    sentence.append(" ");
    sentence.append(if clock.hour < 12 { "AM" } else { "PM" });
    sentence.append(". Date is ");
    sentence.append(month_text(clock.month));
    sentence.append(" ");
    sentence.append(day_words.as_str());
    sentence.append(".");
    sentence
}

/// `chrono::Local::now`, read through `Timelike::hour`, `Timelike::minute`,
/// `Datelike::month` and `Datelike::day`: the local time of day and date.
/// Each number lies in the range that chrono documents for it.
#[verifier::external_body]
fn local_now() -> (clock: WallClock)
    ensures
        clock.valid(),
{
    let now = chrono::Local::now();
    WallClock {
        hour: chrono::Timelike::hour(&now),
        minute: chrono::Timelike::minute(&now),
        month: chrono::Datelike::month(&now),
        day: chrono::Datelike::day(&now),
    }
}

/// Says the current local time and date.
pub fn get_current_time() -> (sentence: String)
    ensures
        exists|clock: WallClock| clock.valid() && sentence@ == #[trigger] time_sentence(clock),
{
    let clock = local_now();
    describe_time(clock)
}

} // verus!
