//! Numbers as spoken words, and spoken words as numbers.

use vstd::prelude::*;
use vstd::string::StringExecFns;
use crate::text::{
    decimal_value, lowercase, lowercase_text, parse_decimal, same_text, split_text, split_words,
    string_views, trim_text, trimmed,
};

verus! {

/// The character of a decimal digit.
pub open spec fn digit_char(digit: nat) -> char
    recommends
        digit < 10,
{
    if digit == 0 {
        '0'
    } else if digit == 1 {
        '1'
    } else if digit == 2 {
        '2'
    } else if digit == 3 {
        '3'
    } else if digit == 4 {
        '4'
    } else if digit == 5 {
        '5'
    } else if digit == 6 {
        '6'
    } else if digit == 7 {
        '7'
    } else if digit == 8 {
        '8'
    } else {
        '9'
    }
}

/// A number in decimal digits, without sign or leading zeros.
pub open spec fn decimal_text(n: nat) -> Seq<char>
    decreases n,
{
    if n < 10 {
        seq![digit_char(n)]
    } else {
        decimal_text(n / 10).push(digit_char(n % 10))
    }
}

/// The words for the numbers below twenty.
pub open spec fn small_word(n: nat) -> Seq<char>
    recommends
        n < 20,
{
    if n == 0 {
        "zero"@
    } else if n == 1 {
        "one"@
    } else if n == 2 {
        "two"@
    } else if n == 3 {
        "three"@
    } else if n == 4 {
        "four"@
    } else if n == 5 {
        "five"@
    } else if n == 6 {
        "six"@
    } else if n == 7 {
        "seven"@
    } else if n == 8 {
        "eight"@
    } else if n == 9 {
        "nine"@
    } else if n == 10 {
        "ten"@
    } else if n == 11 {
        "eleven"@
    } else if n == 12 {
        "twelve"@
    } else if n == 13 {
        "thirteen"@
    } else if n == 14 {
        "fourteen"@
    } else if n == 15 {
        "fifteen"@
    } else if n == 16 {
        "sixteen"@
    } else if n == 17 {
        "seventeen"@
    } else if n == 18 {
        "eighteen"@
    } else {
        "nineteen"@
    }
}

/// The words for the multiples of ten from twenty to ninety.
pub open spec fn tens_word(tens: nat) -> Seq<char>
    recommends
        2 <= tens <= 9,
{
    if tens == 2 {
        "twenty"@
    } else if tens == 3 {
        "thirty"@
    } else if tens == 4 {
        "forty"@
    } else if tens == 5 {
        "fifty"@
    } else if tens == 6 {
        "sixty"@
    } else if tens == 7 {
        "seventy"@
    } else if tens == 8 {
        "eighty"@
    } else {
        "ninety"@
    }
}

/// A number in words. From one million on it is written in digits.
pub open spec fn cardinal(n: nat) -> Seq<char>
    decreases n,
{
    if n < 20 {
        small_word(n)
    } else if n < 100 {
        if n % 10 == 0 {
            tens_word(n / 10)
        } else {
            tens_word(n / 10) + " "@ + small_word(n % 10)
        }
    } else if n < 1000 {
        if n % 100 == 0 {
            cardinal(n / 100) + " hundred"@
        } else {
            cardinal(n / 100) + " hundred"@ + " "@ + cardinal(n % 100)
        }
    } else if n < 1_000_000 {
        if n % 1000 == 0 {
            cardinal(n / 1000) + " thousand"@
        } else {
            cardinal(n / 1000) + " thousand"@ + " "@ + cardinal(n % 1000)
        }
    } else {
        decimal_text(n)
    }
}

/// A whole number in words; a negative one is announced as such.
pub open spec fn spoken(n: int) -> Seq<char> {
    if n < 0 {
        "negative "@ + cardinal((-n) as nat)
    } else {
        cardinal(n as nat)
    }
}

fn digit_text(digit: u32) -> (text: &'static str)
    requires
        digit < 10,
    ensures
        text@ == seq![digit_char(digit as nat)],
{
    proof {
        reveal_strlit("0");
        reveal_strlit("1");
        reveal_strlit("2");
        reveal_strlit("3");
        reveal_strlit("4");
        reveal_strlit("5");
        reveal_strlit("6");
        reveal_strlit("7");
        reveal_strlit("8");
        reveal_strlit("9");
    }
    let text = if digit == 0 {
        "0"
    } else if digit == 1 {
        "1"
    } else if digit == 2 {
        "2"
    } else if digit == 3 {
        "3"
    } else if digit == 4 {
        "4"
    } else if digit == 5 {
        "5"
    } else if digit == 6 {
        "6"
    } else if digit == 7 {
        "7"
    } else if digit == 8 {
        "8"
    } else {
        "9"
    };
    text
}

/// Writes `n` in decimal digits.
pub fn decimal_string(n: u64) -> (text: String)
    ensures
        text@ == decimal_text(n as nat),
    decreases n,
{
    if n < 10 {
        String::from_str(digit_text(n as u32))
    } else {
        let mut text = decimal_string(n / 10);
        text.append(digit_text((n % 10) as u32));
        text
    }
}

fn small_text(n: u32) -> (text: &'static str)
    requires
        n < 20,
    ensures
        text@ == small_word(n as nat),
{
    if n == 0 {
        "zero"
    } else if n == 1 {
        "one"
    } else if n == 2 {
        "two"
    } else if n == 3 {
        "three"
    } else if n == 4 {
        "four"
    } else if n == 5 {
        "five"
    } else if n == 6 {
        "six"
    } else if n == 7 {
        "seven"
    } else if n == 8 {
        "eight"
    } else if n == 9 {
        "nine"
    } else if n == 10 {
        "ten"
    } else if n == 11 {
        "eleven"
    } else if n == 12 {
        "twelve"
    } else if n == 13 {
        "thirteen"
    } else if n == 14 {
        "fourteen"
    } else if n == 15 {
        "fifteen"
    } else if n == 16 {
        "sixteen"
    } else if n == 17 {
        "seventeen"
    } else if n == 18 {
        "eighteen"
    } else {
        "nineteen"
    }
}

fn tens_text(tens: u32) -> (text: &'static str)
    requires
        2 <= tens <= 9,
    ensures
        text@ == tens_word(tens as nat),
{
    if tens == 2 {
        "twenty"
    } else if tens == 3 {
        "thirty"
    } else if tens == 4 {
        "forty"
    } else if tens == 5 {
        "fifty"
    } else if tens == 6 {
        "sixty"
    } else if tens == 7 {
        "seventy"
    } else if tens == 8 {
        "eighty"
    } else {
        "ninety"
    }
}

/// Writes a number in words.
pub fn cardinal_words(n: u64) -> (text: String)
    ensures
        text@ == cardinal(n as nat),
    decreases n,
{
    if n < 20 {
        String::from_str(small_text(n as u32))
    } else if n < 100 {
        let mut text = String::from_str(tens_text((n / 10) as u32));
        if n % 10 != 0 {
            text.append(" ");
            text.append(small_text((n % 10) as u32));
        }
        text
    } else if n < 1000 {
        let mut text = cardinal_words(n / 100);
        text.append(" hundred");
        if n % 100 != 0 {
            text.append(" ");
            let rest = cardinal_words(n % 100);
            text.append(rest.as_str());
        }
        text
    } else if n < 1_000_000 {
        let mut text = cardinal_words(n / 1000);
        text.append(" thousand");
        if n % 1000 != 0 {
            text.append(" ");
            let rest = cardinal_words(n % 1000);
            text.append(rest.as_str());
        }
        text
    } else {
        decimal_string(n)
    }
}

/// Converts an integer to its human-readable word representation:
/// `1` is "one", `42` is "forty two", `-1` is "negative one".
pub fn int_to_words(n: i32) -> (text: String)
    ensures
        text@ == spoken(n as int),
{
    if n < 0 {
        let magnitude: u64 = (0 - n as i64) as u64;
        let mut text = String::from_str("negative ");
        let words = cardinal_words(magnitude);
        text.append(words.as_str());
        text
    } else {
        cardinal_words(n as u64)
    }
}

/// A list of phrases joined by a separator.
pub open spec fn joined(parts: Seq<Seq<char>>, separator: Seq<char>) -> Seq<char>
    decreases parts.len(),
{
    if parts.len() == 0 {
        Seq::empty()
    } else if parts.len() == 1 {
        parts[0]
    } else {
        joined(parts.drop_last(), separator) + separator + parts.last()
    }
}

/// Joins a list of phrases by a separator.
pub fn join_phrases(parts: &Vec<String>, separator: &str) -> (text: String)
    ensures
        text@ == joined(string_views(parts@), separator@),
{
    let ghost all = string_views(parts@);
    let mut text = String::new();
    let mut i: usize = 0;
    while i < parts.len()
        invariant
            i <= parts.len(),
            all == string_views(parts@),
            text@ == joined(all.take(i as int), separator@),
        decreases parts.len() - i,
    {
        proof {
            assert(all.take(i + 1).drop_last() =~= all.take(i as int));
        }
        if i > 0 {
            text.append(separator);
        }
        text.append(parts[i].as_str());
        i += 1;
    }
    assert(all.take(parts.len() as int) =~= all);
    text
}

/// A count with its unit, the unit in the plural unless the count is one:
/// "one hour", "two hours".
pub open spec fn counted(count: nat, unit: Seq<char>) -> Seq<char> {
    if count == 1 {
        cardinal(count) + " "@ + unit
    } else {
        cardinal(count) + " "@ + unit + "s"@
    }
}

/// The parts of a duration in words: hours, minutes and seconds, those that
/// are zero left out. A duration of zero is "zero seconds".
pub open spec fn duration_parts(total_secs: nat) -> Seq<Seq<char>> {
    let hours = total_secs / 3600;
    let minutes = (total_secs % 3600) / 60;
    let seconds = total_secs % 60;
    let hour_part = if hours > 0 {
        seq![counted(hours, "hour"@)]
    } else {
        Seq::empty()
    };
    let minute_part = if minutes > 0 {
        seq![counted(minutes, "minute"@)]
    } else {
        Seq::empty()
    };
    let second_part = if seconds > 0 || (hours == 0 && minutes == 0) {
        seq![counted(seconds, "second"@)]
    } else {
        Seq::empty()
    };
    hour_part + minute_part + second_part
}

/// A duration in words: "one hour and thirty five minutes".
pub open spec fn duration_phrase(total_secs: nat) -> Seq<char> {
    joined(duration_parts(total_secs), " and "@)
}

fn counted_text(count: u64, unit: &str) -> (text: String)
    ensures
        text@ == counted(count as nat, unit@),
{
    let mut text = cardinal_words(count);
    text.append(" ");
    text.append(unit);
    if count != 1 {
        text.append("s");
    }
    text
}

/// Writes a duration given in seconds in words.
pub fn format_duration_human(total_secs: u64) -> (text: String)
    ensures
        text@ == duration_phrase(total_secs as nat),
{
    let hours: u64 = total_secs / 3600;
    let minutes: u64 = (total_secs % 3600) / 60;
    let seconds: u64 = total_secs % 60;
    let mut parts: Vec<String> = Vec::new();
    if hours > 0 {
        parts.push(counted_text(hours, "hour"));
    }
    if minutes > 0 {
        parts.push(counted_text(minutes, "minute"));
    }
    if seconds > 0 || parts.len() == 0 {
        parts.push(counted_text(seconds, "second"));
    }
    assert(string_views(parts@) =~= duration_parts(total_secs as nat));
    join_phrases(&parts, " and ")
}

/// What a word contributes to a number.
pub enum WordEffect {
    /// The word adds its value to the current group.
    Add(u64),
    /// The word multiplies the current group by a hundred.
    Hundred,
    /// The word multiplies the current group by a thousand and closes it.
    Thousand,
    /// The word is a filler and changes nothing.
    Skip,
    /// The word is no part of a number.
    Invalid,
}

/// What `word` contributes to a number. "a" counts as one, "and" is a
/// filler, and a word in digits adds the number it denotes.
pub open spec fn word_effect(word: Seq<char>) -> WordEffect {
    if word == "zero"@ {
        WordEffect::Add(0)
    } else if word == "one"@ || word == "a"@ {
        WordEffect::Add(1)
    } else if word == "two"@ {
        WordEffect::Add(2)
    } else if word == "three"@ {
        WordEffect::Add(3)
    } else if word == "four"@ {
        WordEffect::Add(4)
    } else if word == "five"@ {
        WordEffect::Add(5)
    } else if word == "six"@ {
        WordEffect::Add(6)
    } else if word == "seven"@ {
        WordEffect::Add(7)
    } else if word == "eight"@ {
        WordEffect::Add(8)
    } else if word == "nine"@ {
        WordEffect::Add(9)
    } else if word == "ten"@ {
        WordEffect::Add(10)
    } else if word == "eleven"@ {
        WordEffect::Add(11)
    } else if word == "twelve"@ {
        WordEffect::Add(12)
    } else if word == "thirteen"@ {
        WordEffect::Add(13)
    } else if word == "fourteen"@ {
        WordEffect::Add(14)
    } else if word == "fifteen"@ {
        WordEffect::Add(15)
    } else if word == "sixteen"@ {
        WordEffect::Add(16)
    } else if word == "seventeen"@ {
        WordEffect::Add(17)
    } else if word == "eighteen"@ {
        WordEffect::Add(18)
    } else if word == "nineteen"@ {
        WordEffect::Add(19)
    } else if word == "twenty"@ {
        WordEffect::Add(20)
    } else if word == "thirty"@ {
        WordEffect::Add(30)
    } else if word == "forty"@ {
        WordEffect::Add(40)
    } else if word == "fifty"@ {
        WordEffect::Add(50)
    } else if word == "sixty"@ {
        WordEffect::Add(60)
    } else if word == "seventy"@ {
        WordEffect::Add(70)
    } else if word == "eighty"@ {
        WordEffect::Add(80)
    } else if word == "ninety"@ {
        WordEffect::Add(90)
    } else if word == "hundred"@ {
        WordEffect::Hundred
    } else if word == "thousand"@ {
        WordEffect::Thousand
    } else if word == "and"@ {
        WordEffect::Skip
    } else {
        match decimal_value(word) {
            Some(n) => WordEffect::Add(n),
            None => WordEffect::Invalid,
        }
    }
}

/// A number being read: the closed groups and the group under way.
pub struct Tally {
    /// Sum of the groups closed by "thousand".
    pub total: nat,
    /// Value of the group under way.
    pub current: nat,
}

/// The tally after one more word; none once a word is invalid or a value
/// no longer fits in 64 bits.
pub open spec fn tally_word(tally: Option<Tally>, word: Seq<char>) -> Option<Tally> {
    match tally {
        None => None,
        Some(t) => match word_effect(word) {
            WordEffect::Add(k) => if t.current + k > u64::MAX {
                None
            } else {
                Some(Tally { total: t.total, current: (t.current + k) as nat })
            },
            WordEffect::Hundred => if t.current * 100 > u64::MAX {
                None
            } else {
                Some(Tally { total: t.total, current: t.current * 100 })
            },
            WordEffect::Thousand => if t.total + t.current * 1000 > u64::MAX {
                None
            } else {
                Some(Tally { total: t.total + t.current * 1000, current: 0 })
            },
            WordEffect::Skip => Some(t),
            WordEffect::Invalid => None,
        },
    }
}

/// The tally after a run of words.
pub open spec fn tally_words(words: Seq<Seq<char>>) -> Option<Tally>
    decreases words.len(),
{
    if words.len() == 0 {
        Some(Tally { total: 0, current: 0 })
    } else {
        tally_word(tally_words(words.drop_last()), words.last())
    }
}

/// Whether the word "zero" is among `words`.
pub open spec fn mentions_zero(words: Seq<Seq<char>>) -> bool {
    exists|i: int| 0 <= i < words.len() && #[trigger] words[i] == "zero"@
}

/// The number that a run of lower-case words denotes. No words denote no
/// number, and a sum of zero counts only if "zero" was said.
pub open spec fn words_number(words: Seq<Seq<char>>) -> Option<u64> {
    if words.len() == 0 {
        None
    } else {
        match tally_words(words) {
            None => None,
            Some(t) => {
                let sum = t.total + t.current;
                if sum > u64::MAX || (sum == 0 && !mentions_zero(words)) {
                    None
                } else {
                    Some(sum as u64)
                }
            },
        }
    }
}

/// The number that a trimmed lower-case text denotes: in digits, or else
/// in words.
pub open spec fn number_value(text: Seq<char>) -> Option<u64> {
    match decimal_value(text) {
        Some(n) => Some(n),
        None => words_number(split_words(text)),
    }
}

fn effect_of(word: &str) -> (effect: WordEffect)
    ensures
        effect == word_effect(word@),
{
    if same_text(word, "zero") {
        WordEffect::Add(0)
    } else if same_text(word, "one") || same_text(word, "a") {
        WordEffect::Add(1)
    } else if same_text(word, "two") {
        WordEffect::Add(2)
    } else if same_text(word, "three") {
        WordEffect::Add(3)
    } else if same_text(word, "four") {
        WordEffect::Add(4)
    } else if same_text(word, "five") {
        WordEffect::Add(5)
    } else if same_text(word, "six") {
        WordEffect::Add(6)
    } else if same_text(word, "seven") {
        WordEffect::Add(7)
    } else if same_text(word, "eight") {
        WordEffect::Add(8)
    } else if same_text(word, "nine") {
        WordEffect::Add(9)
    } else if same_text(word, "ten") {
        WordEffect::Add(10)
    } else if same_text(word, "eleven") {
        WordEffect::Add(11)
    } else if same_text(word, "twelve") {
        WordEffect::Add(12)
    } else if same_text(word, "thirteen") {
        WordEffect::Add(13)
    } else if same_text(word, "fourteen") {
        WordEffect::Add(14)
    } else if same_text(word, "fifteen") {
        WordEffect::Add(15)
    } else if same_text(word, "sixteen") {
        WordEffect::Add(16)
    } else if same_text(word, "seventeen") {
        WordEffect::Add(17)
    } else if same_text(word, "eighteen") {
        WordEffect::Add(18)
    } else if same_text(word, "nineteen") {
        WordEffect::Add(19)
    } else if same_text(word, "twenty") {
        WordEffect::Add(20)
    } else if same_text(word, "thirty") {
        WordEffect::Add(30)
    } else if same_text(word, "forty") {
        WordEffect::Add(40)
    } else if same_text(word, "fifty") {
        WordEffect::Add(50)
    } else if same_text(word, "sixty") {
        WordEffect::Add(60)
    } else if same_text(word, "seventy") {
        WordEffect::Add(70)
    } else if same_text(word, "eighty") {
        WordEffect::Add(80)
    } else if same_text(word, "ninety") {
        WordEffect::Add(90)
    } else if same_text(word, "hundred") {
        WordEffect::Hundred
    } else if same_text(word, "thousand") {
        WordEffect::Thousand
    } else if same_text(word, "and") {
        WordEffect::Skip
    } else {
        match parse_decimal(word) {
            Some(n) => WordEffect::Add(n),
            None => WordEffect::Invalid,
        }
    }
}

/// Reads the number that a run of lower-case words denotes.
pub fn number_from_words(words: &Vec<String>) -> (number: Option<u64>)
    ensures
        number == words_number(string_views(words@)),
{
    let ghost all = string_views(words@);
    if words.len() == 0 {
        return None;
    }
    let mut total: u64 = 0;
    let mut current: u64 = 0;
    let mut said_zero = false;
    let mut i: usize = 0;
    while i < words.len()
        invariant
            i <= words.len(),
            all == string_views(words@),
            tally_words(all.take(i as int)) == Some(
                Tally { total: total as nat, current: current as nat },
            ),
            said_zero == mentions_zero(all.take(i as int)),
        decreases words.len() - i,
    {
        let word = words[i].as_str();
        let ghost seen = all.take(i + 1);
        proof {
            assert(seen.drop_last() =~= all.take(i as int));
        }
        let updated: Option<(u64, u64)> = match effect_of(word) {
            WordEffect::Add(k) => match current.checked_add(k) {
                Some(sum) => Some((total, sum)),
                None => None,
            },
            WordEffect::Hundred => match current.checked_mul(100) {
                Some(product) => Some((total, product)),
                None => None,
            },
            WordEffect::Thousand => match current.checked_mul(1000) {
                Some(product) => match total.checked_add(product) {
                    Some(sum) => Some((sum, 0)),
                    None => None,
                },
                None => None,
            },
            WordEffect::Skip => Some((total, current)),
            WordEffect::Invalid => None,
        };
        match updated {
            Some((new_total, new_current)) => {
                total = new_total;
                current = new_current;
            },
            None => {
                proof {
                    lemma_tally_fails_for_good(all, i + 1);
                }
                return None;
            },
        }
        let is_zero = same_text(word, "zero");
        proof {
            if mentions_zero(seen) {
                let j = choose|j: int| 0 <= j < seen.len() && #[trigger] seen[j] == "zero"@;
                assert(j < i ==> all.take(i as int)[j] == "zero"@);
            }
            if mentions_zero(all.take(i as int)) {
                let j = choose|j: int| 0 <= j < i && #[trigger] all.take(i as int)[j] == "zero"@;
                assert(seen[j] == "zero"@);
            }
        }
        said_zero = said_zero || is_zero;
        i += 1;
    }
    assert(all.take(words.len() as int) =~= all);
    match total.checked_add(current) {
        Some(sum) => {
            if sum == 0 && !said_zero {
                None
            } else {
                Some(sum)
            }
        },
        None => None,
    }
}

/// Reads the number that a trimmed lower-case text denotes, in digits or
/// in words.
pub fn lowercase_number(text: &str) -> (number: Option<u64>)
    ensures
        number == number_value(text@),
{
    match parse_decimal(text) {
        Some(n) => Some(n),
        None => {
            let words = split_text(text);
            number_from_words(&words)
        },
    }
}

/// Converts a number in words or digits to an integer: "five" is 5,
/// "twenty three" is 23, "one hundred forty two" is 142, "23" is 23.
/// Case and surrounding white space do not matter.
pub fn words_to_int(s: &str) -> (number: Option<u64>)
    ensures
        number == number_value(lowercase(trimmed(s@))),
{
    let inner = trim_text(s);
    let lower = lowercase_text(inner.as_str());
    lowercase_number(lower.as_str())
}

/// Once reading a run of words has failed, more words do not mend it.
pub proof fn lemma_tally_fails_for_good(words: Seq<Seq<char>>, k: int)
    requires
        0 <= k <= words.len(),
        tally_words(words.take(k)) is None,
    ensures
        tally_words(words) is None,
    decreases words.len(),
{
    if k == words.len() {
        assert(words.take(k) =~= words);
    } else {
        assert(words.drop_last().take(k) =~= words.take(k));
        lemma_tally_fails_for_good(words.drop_last(), k);
    }
}

} // verus!
