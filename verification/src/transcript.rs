//! From the segments of a transcription to the text of a command.

use vstd::prelude::*;
use vstd::string::StringExecFns;
use crate::human_format::{join_phrases, joined};
use crate::text::{
    alphanumeric, chars_text, find_chars, first_occurrence, is_alphanumeric, is_white_space,
    keep_marked, kept_by, lowercase, lowercase_text, mark_white_space, split_marked, split_words,
    text_chars, trim_text, trimmed, white_space,
};

verus! {

/// A stretch of transcribed speech.
#[derive(Debug, Clone, PartialEq, Eq)]
pub struct SpeechSegment {
    /// Where the segment starts, in the units of the transcription model.
    pub start_timestamp: i64,
    /// Where the segment ends.
    pub end_timestamp: i64,
    /// The transcribed text.
    pub text: String,
}

/// The texts of a list of segments, one after the other.
pub open spec fn segments_text(segments: Seq<SpeechSegment>) -> Seq<char>
    decreases segments.len(),
{
    if segments.len() == 0 {
        Seq::empty()
    } else {
        segments_text(segments.drop_last()) + segments.last().text@
    }
}

/// Whether a character stays in a command: letters, digits and white space.
pub open spec fn kept_in_command(c: char) -> bool {
    alphanumeric(c) || white_space(c)
}

/// For each character of a text, whether it stays in a command.
pub open spec fn keep_flags(text: Seq<char>) -> Seq<bool> {
    Seq::new(text.len(), |i: int| kept_in_command(text[i]))
}

/// A lower-case text with punctuation removed and each stretch of white
/// space, none at the ends, turned into one blank.
pub open spec fn tidied(lower: Seq<char>) -> Seq<char> {
    joined(split_words(kept_by(lower, keep_flags(lower))), " "@)
}

/// What follows the first occurrence of `activation` in `tidy`, trimmed; the
/// whole of `tidy` if `activation` does not occur.
pub open spec fn after_activation(tidy: Seq<char>, activation: Seq<char>) -> Seq<char> {
    match first_occurrence(tidy, activation) {
        Some(at) => trimmed(tidy.skip(at + activation.len())),
        None => tidy,
    }
}

/// Puts the texts of the segments one after the other.
pub fn concat_segments(segments: &Vec<SpeechSegment>) -> (text: String)
    ensures
        text@ == segments_text(segments@),
{
    let mut text = String::new();
    let mut i: usize = 0;
    while i < segments.len()
        invariant
            i <= segments.len(),
            text@ == segments_text(segments@.take(i as int)),
        decreases segments.len() - i,
    {
        assert(segments@.take(i + 1).drop_last() =~= segments@.take(i as int));
        text.append(segments[i].text.as_str());
        i += 1;
    }
    assert(segments@.take(segments.len() as int) =~= segments@);
    text
}

/// Marks each character of `chars` that stays in a command.
pub fn mark_kept(chars: &Vec<char>) -> (marked: Vec<bool>)
    ensures
        marked@ == keep_flags(chars@),
{
    let mut marked: Vec<bool> = Vec::new();
    let mut i: usize = 0;
    while i < chars.len()
        invariant
            i <= chars.len(),
            marked@ == keep_flags(chars@).take(i as int),
        decreases chars.len() - i,
    {
        marked.push(is_alphanumeric(chars[i]) || is_white_space(chars[i]));
        assert(marked@ =~= keep_flags(chars@).take(i + 1));
        i += 1;
    }
    assert(keep_flags(chars@).take(chars.len() as int) =~= keep_flags(chars@));
    marked
}

/// Removes punctuation from a lower-case text and turns each stretch of
/// white space into one blank, with none at the ends.
pub fn tidy_text(lower: &str) -> (tidy: String)
    ensures
        tidy@ == tidied(lower@),
{
    let chars = text_chars(lower);
    let marked = mark_kept(&chars);
    let kept = keep_marked(&chars, &marked);
    let white = mark_white_space(&kept);
    let words = split_marked(&kept, &white);
    join_phrases(&words, " ")
}

/// Cuts a tidy text down to what follows the first occurrence of the
/// activation text.
pub fn strip_activation(tidy: &str, voice_activation_text: &str) -> (command: String)
    ensures
        command@ == after_activation(tidy@, voice_activation_text@),
{
    let haystack = text_chars(tidy);
    let needle = text_chars(voice_activation_text);
    match find_chars(&haystack, &needle) {
        Some(at) => {
            let start: usize = at + needle.len();
            let mut rest: Vec<char> = Vec::new();
            let mut i: usize = start;
            while i < haystack.len()
                invariant
                    start <= i <= haystack.len(),
                    rest@ == haystack@.subrange(start as int, i as int),
                decreases haystack.len() - i,
            {
                rest.push(haystack[i]);
                i += 1;
            }
            let tail = chars_text(&rest);
            trim_text(tail.as_str())
        },
        None => String::from_str(tidy),
    }
}

/// Turns the segments of a transcription into the text of a command: the
/// segments are joined, trimmed and put in lower case, punctuation goes,
/// white space is collapsed, and what stands up to and including the
/// activation text is cut off.
pub fn clean_text_segments(segments: Vec<SpeechSegment>, voice_activation_text: &str) -> (command:
    String)
    ensures
        command@ == after_activation(
            tidied(lowercase(trimmed(segments_text(segments@)))),
            voice_activation_text@,
        ),
{
    let full = concat_segments(&segments);
    let inner = trim_text(full.as_str());
    let lower = lowercase_text(inner.as_str());
    let tidy = tidy_text(lower.as_str());
    strip_activation(tidy.as_str(), voice_activation_text)
}

} // verus!
