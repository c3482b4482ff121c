//! Kitchen timers: set, list, cancel, expire.
//!
//! The manager holds the timers that are running and says what to answer.
//! It does not sleep: whoever waits for a timer reports its end with
//! [`TimerManager::expire`], and the clock is handed in as a number of
//! seconds.

use vstd::prelude::*;
use vstd::string::StringExecFns;
use crate::human_format::{
    decimal_string, decimal_text, duration_phrase, format_duration_human, join_phrases, joined,
};
use crate::text::{lowercase, lowercase_text, string_views};

verus! {

/// Notice that a timer has run out.
#[derive(Debug, Clone, PartialEq, Eq)]
pub struct TimerEvent {
    /// The name given to the timer, if any.
    pub name: Option<String>,
}

/// A running timer as a mathematical value.
pub struct TimerView {
    /// What identifies the timer.
    pub id: u64,
    /// The name given to the timer, if any.
    pub name: Option<Seq<char>>,
    /// The duration the timer was set for, in seconds.
    pub duration_secs: u64,
    /// The clock reading, in seconds, when the timer was set.
    pub started_at: u64,
}

/// A running timer.
pub struct TimerInfo {
    id: u64,
    name: Option<String>,
    duration_secs_set: u64,
    started_at: u64,
}

impl TimerInfo {
    /// The timer as a mathematical value.
    pub closed spec fn view(&self) -> TimerView {
        TimerView {
            id: self.id,
            name: match self.name {
                Some(name) => Some(name@),
                None => None,
            },
            duration_secs: self.duration_secs_set,
            started_at: self.started_at,
        }
    }
}

/// The views of a list of timers.
pub open spec fn timer_views(timers: Seq<TimerInfo>) -> Seq<TimerView> {
    Seq::new(timers.len(), |i: int| timers[i]@)
}

/// What a timer is called in an answer: its name, or else its duration.
pub open spec fn timer_label(timer: TimerView) -> Seq<char> {
    match timer.name {
        Some(name) => name,
        None => duration_phrase(timer.duration_secs as nat),
    }
}

/// The answer to cancelling `timer`.
pub open spec fn cancelled_message(timer: TimerView) -> Seq<char> {
    "Cancelled timer "@ + timer_label(timer)
}

/// The answer to setting a timer.
pub open spec fn set_message(name: Option<Seq<char>>, duration_secs: u64) -> Seq<char> {
    match name {
        Some(n) => "Timer "@ + n + " set for "@ + duration_phrase(duration_secs as nat),
        None => "Timer set for "@ + duration_phrase(duration_secs as nat),
    }
}

/// The seconds a timer still has to run at clock reading `now`.
pub open spec fn remaining_secs(timer: TimerView, now: u64) -> nat {
    let elapsed = if now >= timer.started_at {
        now - timer.started_at
    } else {
        0
    };
    if timer.duration_secs >= elapsed {
        (timer.duration_secs - elapsed) as nat
    } else {
        0
    }
}

/// The line that reports on one timer.
pub open spec fn timer_line(timer: TimerView, now: u64) -> Seq<char> {
    match timer.name {
        Some(name) => name + ": "@ + duration_phrase(remaining_secs(timer, now)) + " remaining"@,
        None => duration_phrase(remaining_secs(timer, now)) + " remaining"@,
    }
}

/// The report on the running timers, oldest first.
pub open spec fn timers_report(timers: Seq<TimerView>, now: u64) -> Seq<char> {
    if timers.len() == 0 {
        "No timers are set"@
    } else {
        joined(Seq::new(timers.len(), |i: int| timer_line(timers[i], now)), ". "@)
    }
}

/// Whether a timer goes by `name`, whatever the case of the letters.
pub open spec fn goes_by(timer: TimerView, name: Seq<char>) -> bool {
    match timer.name {
        Some(own) => lowercase(own) == lowercase(name),
        None => false,
    }
}

/// For each timer, whether it goes by `name`.
pub open spec fn name_marks(timers: Seq<TimerView>, name: Seq<char>) -> Seq<bool> {
    Seq::new(timers.len(), |i: int| goes_by(timers[i], name))
}

/// Position of the first mark that is set; the number of marks if none is.
pub open spec fn first_marked(marked: Seq<bool>) -> nat
    decreases marked.len(),
{
    if marked.len() == 0 || marked.first() {
        0
    } else {
        1 + first_marked(marked.drop_first())
    }
}

/// The timers left and the answer after cancelling by marks: the oldest
/// marked timer goes; if none is marked, the only timer goes; else nothing
/// changes and the answer says that `name` was not found.
pub open spec fn after_cancel(timers: Seq<TimerView>, marked: Seq<bool>, name: Seq<char>) -> (
    Seq<TimerView>,
    Seq<char>,
) {
    let index = first_marked(marked) as int;
    if index < timers.len() {
        (timers.remove(index), cancelled_message(timers[index]))
    } else if timers.len() == 1 {
        (Seq::empty(), cancelled_message(timers[0]))
    } else {
        (timers, "No timer found with name "@ + name)
    }
}

/// Whether `index` is the oldest timer set for `duration_secs`.
pub open spec fn is_oldest_lasting(timers: Seq<TimerView>, duration_secs: u64, index: int) -> bool {
    &&& 0 <= index < timers.len()
    &&& timers[index].duration_secs == duration_secs
    &&& forall|j: int| 0 <= j < index ==> (#[trigger] timers[j]).duration_secs != duration_secs
}

/// Whether no timer was set for `duration_secs`.
pub open spec fn none_lasting(timers: Seq<TimerView>, duration_secs: u64) -> bool {
    forall|j: int| 0 <= j < timers.len() ==> (#[trigger] timers[j]).duration_secs != duration_secs
}

/// The answer to cancelling all of `count` timers.
pub open spec fn cancelled_all_message(count: nat) -> Seq<char> {
    if count == 0 {
        "No timers to cancel"@
    } else if count == 1 {
        "Cancelled "@ + decimal_text(count) + " timer"@
    } else {
        "Cancelled "@ + decimal_text(count) + " timer"@ + "s"@
    }
}

/// What setting a timer gives back.
pub struct TimerSet {
    /// What identifies the new timer.
    pub id: u64,
    /// The answer to speak.
    pub message: String,
}

/// The running timers.
pub struct TimerManager {
    timers: Vec<TimerInfo>,
    next_id: u64,
}

impl TimerManager {
    /// The running timers, oldest first.
    pub closed spec fn view(&self) -> Seq<TimerView> {
        timer_views(self.timers@)
    }

    /// The identifier the next timer gets.
    pub closed spec fn next_id(&self) -> u64 {
        self.next_id
    }

    /// No two timers share an identifier, and every identifier in use was
    /// handed out before.
    pub open spec fn wf(&self) -> bool {
        &&& forall|i: int| 0 <= i < self@.len() ==> (#[trigger] self@[i]).id < self.next_id()
        &&& forall|i: int, j: int|
            0 <= i < j < self@.len() ==> (#[trigger] self@[i]).id != (#[trigger] self@[j]).id
    }

    /// Creates a manager without timers. Identifiers start at one.
    pub fn new() -> (manager: Self)
        ensures
            manager.wf(),
            manager@ == Seq::<TimerView>::empty(),
            manager.next_id() == 1,
    {
        let manager = TimerManager { timers: Vec::new(), next_id: 1 };
        manager
    }

    /// Number of running timers.
    pub fn len(&self) -> (count: usize)
        ensures
            count == self@.len(),
    {
        self.timers.len()
    }

    /// Whether another timer can be set: identifiers are not used up.
    pub fn can_set_timer(&self) -> (free: bool)
        ensures
            free == (self.next_id() < u64::MAX),
    {
        self.next_id < u64::MAX
    }

    /// Whether the timer `id` is running: it was set and has neither been
    /// cancelled nor run out.
    pub fn is_active(&self, id: u64) -> (active: bool)
        ensures
            active == exists|i: int| 0 <= i < self@.len() && (#[trigger] self@[i]).id == id,
    {
        let mut i: usize = 0;
        while i < self.timers.len()
            invariant
                i <= self.timers.len(),
                forall|j: int| 0 <= j < i ==> (#[trigger] self@[j]).id != id,
            decreases self.timers.len() - i,
        {
            if self.timers[i].id == id {
                assert(self@[i as int].id == id);
                return true;
            }
            i += 1;
        }
        false
    }

    /// Sets a timer for `duration_secs` seconds at clock reading `now`.
    pub fn set_timer(&mut self, duration_secs: u64, name: Option<String>, now: u64) -> (set: TimerSet)
        requires
            old(self).wf(),
            old(self).next_id() < u64::MAX,
        ensures
            final(self).wf(),
            set.id == old(self).next_id(),
            final(self).next_id() == old(self).next_id() + 1,
            final(self)@ == old(self)@.push(
                TimerView {
                    id: set.id,
                    name: match name {
                        Some(n) => Some(n@),
                        None => None,
                    },
                    duration_secs,
                    started_at: now,
                },
            ),
            set.message@ == set_message(
                match name {
                    Some(n) => Some(n@),
                    None => None,
                },
                duration_secs,
            ),
    {
        let id = self.next_id;
        self.next_id = id + 1;
        let duration = format_duration_human(duration_secs);
        let message = match &name {
            Some(n) => {
                let mut message = String::from_str("Timer ");
                message.append(n.as_str());
                message.append(" set for ");
                message.append(duration.as_str());
                message
            },
            None => {
                let mut message = String::from_str("Timer set for ");
                message.append(duration.as_str());
                message
            },
        };
        let info = TimerInfo { id, name, duration_secs_set: duration_secs, started_at: now };
        self.timers.push(info);
        assert(self@ =~= old(self)@.push(info@));
        TimerSet { id, message }
    }

    /// Reports the time each timer still has to run at clock reading `now`.
    pub fn get_timers(&self, now: u64) -> (report: String)
        ensures
            report@ == timers_report(self@, now),
    {
        if self.timers.len() == 0 {
            return String::from_str("No timers are set");
        }
        let ghost all = Seq::new(self@.len(), |i: int| timer_line(self@[i], now));
        let mut lines: Vec<String> = Vec::new();
        let mut i: usize = 0;
        while i < self.timers.len()
            invariant
                i <= self.timers.len(),
                all == Seq::new(self@.len(), |i: int| timer_line(self@[i], now)),
                string_views(lines@) == all.take(i as int),
            decreases self.timers.len() - i,
        {
            let timer = &self.timers[i];
            let elapsed: u64 = if now >= timer.started_at {
                now - timer.started_at
            } else {
                0
            };
            let remaining: u64 = if timer.duration_secs_set >= elapsed {
                timer.duration_secs_set - elapsed
            } else {
                0
            };
            let remaining_text = format_duration_human(remaining);
            let mut line = match &timer.name {
                Some(name) => {
                    let mut line = name.clone();
                    line.append(": ");
                    line
                },
                None => String::new(),
            };
            line.append(remaining_text.as_str());
            line.append(" remaining");
            let ghost earlier = string_views(lines@);
            lines.push(line);
            assert(string_views(lines@) =~= earlier.push(line@));
            i += 1;
        }
        assert(all.take(self.timers.len() as int) =~= all);
        join_phrases(&lines, ". ")
    }

    /// Removes the timer at `index` and says that it is cancelled.
    fn cancel_at(&mut self, index: usize) -> (message: String)
        requires
            old(self).wf(),
            index < old(self)@.len(),
        ensures
            final(self).wf(),
            final(self).next_id() == old(self).next_id(),
            final(self)@ == old(self)@.remove(index as int),
            message@ == cancelled_message(old(self)@[index as int]),
    {
        let timer = self.timers.remove(index);
        assert(self@ =~= old(self)@.remove(index as int));
        let mut message = String::from_str("Cancelled timer ");
        match timer.name {
            Some(name) => {
                message.append(name.as_str());
            },
            None => {
                let duration = format_duration_human(timer.duration_secs_set);
                message.append(duration.as_str());
            },
        }
        message
    }

    /// Marks each timer that goes by `name`, whatever the case of the
    /// letters.
    pub fn mark_named(&self, name: &str) -> (marked: Vec<bool>)
        ensures
            marked@ == name_marks(self@, name@),
    {
        let lowered = lowercase_text(name);
        let mut marked: Vec<bool> = Vec::new();
        let mut i: usize = 0;
        while i < self.timers.len()
            invariant
                i <= self.timers.len(),
                lowered@ == lowercase(name@),
                marked@ == name_marks(self@, name@).take(i as int),
            decreases self.timers.len() - i,
        {
            let matches = match &self.timers[i].name {
                Some(own) => {
                    let own_lowered = lowercase_text(own.as_str());
                    own_lowered == lowered
                },
                None => false,
            };
            assert(matches == goes_by(self@[i as int], name@));
            marked.push(matches);
            assert(marked@ =~= name_marks(self@, name@).take(i + 1));
            i += 1;
        }
        assert(name_marks(self@, name@).take(self.timers.len() as int) =~= name_marks(
            self@,
            name@,
        ));
        marked
    }

    /// Cancels the oldest timer that is marked. If none is and exactly one
    /// timer is running, that timer is cancelled instead. `name` is what
    /// the timer was asked for by.
    pub fn cancel_marked_timer(&mut self, marked: &Vec<bool>, name: &str) -> (message: String)
        requires
            old(self).wf(),
            marked.len() == old(self)@.len(),
        ensures
            final(self).wf(),
            final(self).next_id() == old(self).next_id(),
            (final(self)@, message@) == after_cancel(old(self)@, marked@, name@),
    {
        let mut i: usize = 0;
        assert(marked@.skip(0) =~= marked@);
        while i < self.timers.len()
            invariant
                i <= self.timers.len(),
                marked.len() == self.timers.len(),
                self.wf(),
                self.timers == old(self).timers,
                self.next_id == old(self).next_id,
                first_marked(marked@) == i + first_marked(marked@.skip(i as int)),
            decreases self.timers.len() - i,
        {
            if marked[i] {
                return self.cancel_at(i);
            }
            assert(marked@.skip(i as int).drop_first() =~= marked@.skip(i + 1));
            i += 1;
        }
        assert(marked@.skip(i as int) =~= Seq::<bool>::empty());
        if self.timers.len() == 1 {
            let message = self.cancel_at(0);
            assert(self@ =~= Seq::<TimerView>::empty());
            assert(old(self)@.remove(0) =~= Seq::<TimerView>::empty());
            return message;
        }
        let mut message = String::from_str("No timer found with name ");
        message.append(name);
        message
    }

    /// Cancels the oldest timer that goes by `name`, whatever the case of
    /// the letters. If none does and exactly one timer is running, that
    /// timer is cancelled instead.
    pub fn cancel_timer_by_name(&mut self, name: &str) -> (message: String)
        requires
            old(self).wf(),
        ensures
            final(self).wf(),
            final(self).next_id() == old(self).next_id(),
            (final(self)@, message@) == after_cancel(
                old(self)@,
                name_marks(old(self)@, name@),
                name@,
            ),
    {
        let marked = self.mark_named(name);
        self.cancel_marked_timer(&marked, name)
    }

    /// Cancels the oldest timer that was set for `duration_secs` seconds.
    pub fn cancel_timer_by_duration(&mut self, duration_secs: u64) -> (message: String)
        requires
            old(self).wf(),
        ensures
            final(self).wf(),
            final(self).next_id() == old(self).next_id(),
            none_lasting(old(self)@, duration_secs) ==> final(self)@ == old(self)@ && message@
                == "No timer found for "@ + duration_phrase(duration_secs as nat),
            forall|index: int|
                is_oldest_lasting(old(self)@, duration_secs, index) ==> final(self)@ == old(self)@.remove(index) && message@ == cancelled_message(old(self)@[index]),
    {
        let mut i: usize = 0;
        while i < self.timers.len()
            invariant
                i <= self.timers.len(),
                self.wf(),
                self.timers == old(self).timers,
                self.next_id == old(self).next_id,
                forall|j: int| 0 <= j < i ==> (#[trigger] self@[j]).duration_secs != duration_secs,
            decreases self.timers.len() - i,
        {
            if self.timers[i].duration_secs_set == duration_secs {
                return self.cancel_at(i);
            }
            i += 1;
        }
        let mut message = String::from_str("No timer found for ");
        let duration = format_duration_human(duration_secs);
        message.append(duration.as_str());
        message
    }

    /// Cancels every timer.
    pub fn cancel_all_timers(&mut self) -> (message: String)
        requires
            old(self).wf(),
        ensures
            final(self).wf(),
            final(self).next_id() == old(self).next_id(),
            final(self)@ == Seq::<TimerView>::empty(),
            message@ == cancelled_all_message(old(self)@.len()),
    {
        let count = self.timers.len();
        if count == 0 {
            return String::from_str("No timers to cancel");
        }
        self.timers.clear();
        let mut message = String::from_str("Cancelled ");
        let digits = decimal_string(count as u64);
        message.append(digits.as_str());
        message.append(" timer");
        if count != 1 {
            message.append("s");
        }
        message
    }

    /// Cancels the timer if exactly one is running.
    pub fn cancel_only_timer(&mut self) -> (message: String)
        requires
            old(self).wf(),
        ensures
            final(self).wf(),
            final(self).next_id() == old(self).next_id(),
            old(self)@.len() == 1 ==> final(self)@ == Seq::<TimerView>::empty() && message@
                == cancelled_message(old(self)@[0]),
            old(self)@.len() == 0 ==> final(self)@ == old(self)@ && message@
                == "No timers to cancel"@,
            old(self)@.len() > 1 ==> final(self)@ == old(self)@ && message@
                == "Multiple timers are set. Please specify which timer to cancel."@,
    {
        if self.timers.len() == 1 {
            let message = self.cancel_at(0);
            message
        } else if self.timers.len() == 0 {
            String::from_str("No timers to cancel")
        } else {
            String::from_str("Multiple timers are set. Please specify which timer to cancel.")
        }
    }

    /// Takes note that the time of timer `id` is up. If the timer is still
    /// running it leaves the list and its notice is handed back; a timer
    /// that was cancelled gives none.
    pub fn expire(&mut self, id: u64) -> (event: Option<TimerEvent>)
        requires
            old(self).wf(),
        ensures
            final(self).wf(),
            final(self).next_id() == old(self).next_id(),
            match event {
                Some(notice) => exists|index: int|
                    {
                        &&& 0 <= index < old(self)@.len()
                        &&& (#[trigger] old(self)@[index]).id == id
                        &&& final(self)@ == old(self)@.remove(index)
                        &&& old(self)@[index].name == match notice.name {
                            Some(n) => Some(n@),
                            None => None,
                        }
                    },
                None => final(self)@ == old(self)@ && forall|j: int|
                    0 <= j < old(self)@.len() ==> (#[trigger] old(self)@[j]).id != id,
            },
    {
        let mut i: usize = 0;
        while i < self.timers.len()
            invariant
                i <= self.timers.len(),
                self.wf(),
                self.timers == old(self).timers,
                self.next_id == old(self).next_id,
                forall|j: int| 0 <= j < i ==> (#[trigger] self@[j]).id != id,
            decreases self.timers.len() - i,
        {
            if self.timers[i].id == id {
                let timer = self.timers.remove(i);
                assert(self@ =~= old(self)@.remove(i as int));
                assert(timer@ == old(self)@[i as int]);
                return Some(TimerEvent { name: timer.name });
            }
            i += 1;
        }
        None
    }
}

} // verus!
