//! Choosing how to open the capture device: which configurations to try,
//! in which order, and what to report when none of them works.

use vstd::prelude::*;
use vstd::string::StringExecFns;
use crate::human_format::{decimal_string, decimal_text, join_phrases, joined};
use crate::text::string_views;

verus! {

/// How a device encodes its samples.
#[derive(Clone, Copy, Debug, PartialEq, Eq, Structural)]
pub enum SampleKind {
    /// 32-bit floating point, which every later stage works on.
    Float32,
    /// 16-bit signed integers.
    Int16,
    /// Anything else.
    Other,
}

/// A range of configurations that a device reports as supported.
#[derive(Clone, Copy, Debug, PartialEq, Eq)]
pub struct SupportedRange {
    pub channels: u16,
    pub min_sample_rate: u32,
    pub max_sample_rate: u32,
    pub sample_format: SampleKind,
}

/// A configuration to try.
#[derive(Clone, Copy, Debug, PartialEq, Eq)]
pub struct CandidateConfig {
    pub channels: u16,
    pub sample_rate: u32,
    pub sample_format: SampleKind,
}

/// The sample rates to try, most wanted first.
pub open spec fn preferred_rates() -> Seq<u32> {
    seq![48000u32, 44100u32, 32000u32, 16000u32, 8000u32]
}

/// The fallbacks to try on one channel whatever the device reports.
pub open spec fn fallback_configs() -> Seq<CandidateConfig> {
    seq![
        CandidateConfig { channels: 1, sample_rate: 16000, sample_format: SampleKind::Float32 },
        CandidateConfig { channels: 1, sample_rate: 16000, sample_format: SampleKind::Int16 },
        CandidateConfig { channels: 1, sample_rate: 8000, sample_format: SampleKind::Float32 },
        CandidateConfig { channels: 1, sample_rate: 8000, sample_format: SampleKind::Int16 },
        CandidateConfig { channels: 1, sample_rate: 48000, sample_format: SampleKind::Float32 },
    ]
}

/// Whether a range admits a rate. A range whose upper end is zero or the
/// largest number reports nothing and admits every rate.
pub open spec fn admits(range: SupportedRange, rate: u32) -> bool {
    range.max_sample_rate == u32::MAX || range.max_sample_rate == 0 || (range.min_sample_rate
        <= rate <= range.max_sample_rate)
}

/// The candidates that a range gives for the leading `count` preferred rates.
pub open spec fn range_candidates(range: SupportedRange, count: nat) -> Seq<CandidateConfig>
    decreases count,
{
    if count == 0 || count > preferred_rates().len() {
        Seq::empty()
    } else {
        let earlier = range_candidates(range, (count - 1) as nat);
        let rate = preferred_rates()[count - 1];
        if admits(range, rate) {
            earlier.push(
                CandidateConfig {
                    channels: range.channels,
                    sample_rate: rate,
                    sample_format: range.sample_format,
                },
            )
        } else {
            earlier
        }
    }
}

/// Whether `index` is the first range of `supported` with the format `kind`.
pub open spec fn is_first_of_kind(supported: Seq<SupportedRange>, kind: SampleKind, index: int)
    -> bool {
    &&& 0 <= index < supported.len()
    &&& supported[index].sample_format == kind
    &&& forall|j: int| 0 <= j < index ==> (#[trigger] supported[j]).sample_format != kind
}

/// Whether no range of `supported` has the format `kind`.
pub open spec fn none_of_kind(supported: Seq<SupportedRange>, kind: SampleKind) -> bool {
    forall|j: int| 0 <= j < supported.len() ==> (#[trigger] supported[j]).sample_format != kind
}

/// Whether `candidates` are what the first range of the format `kind`
/// gives: one candidate for each preferred rate it admits, and nothing if
/// there is no such range.
pub open spec fn candidates_of_kind(
    supported: Seq<SupportedRange>,
    kind: SampleKind,
    candidates: Seq<CandidateConfig>,
) -> bool {
    &&& none_of_kind(supported, kind) ==> candidates == Seq::<CandidateConfig>::empty()
    &&& forall|index: int|
        is_first_of_kind(supported, kind, index) ==> candidates == range_candidates(
            #[trigger] supported[index],
            preferred_rates().len(),
        )
}

/// Whether a candidate with this rate and format is among `candidates`.
pub open spec fn covers(candidates: Seq<CandidateConfig>, rate: u32, kind: SampleKind) -> bool {
    exists|i: int|
        0 <= i < candidates.len() && (#[trigger] candidates[i]).sample_rate == rate
            && candidates[i].sample_format == kind
}

/// The candidates followed by the leading `count` fallbacks, each fallback
/// left out if its rate and format are covered already.
pub open spec fn with_fallbacks(candidates: Seq<CandidateConfig>, count: nat) -> Seq<
    CandidateConfig,
>
    decreases count,
{
    if count == 0 || count > fallback_configs().len() {
        candidates
    } else {
        let earlier = with_fallbacks(candidates, (count - 1) as nat);
        let fallback = fallback_configs()[count - 1];
        if covers(earlier, fallback.sample_rate, fallback.sample_format) {
            earlier
        } else {
            earlier.push(fallback)
        }
    }
}

fn preferred_rate(index: usize) -> (rate: u32)
    requires
        index < 5,
    ensures
        rate == preferred_rates()[index as int],
{
    if index == 0 {
        48000
    } else if index == 1 {
        44100
    } else if index == 2 {
        32000
    } else if index == 3 {
        16000
    } else {
        8000
    }
}

fn fallback_config(index: usize) -> (config: CandidateConfig)
    requires
        index < 5,
    ensures
        config == fallback_configs()[index as int],
{
    if index == 0 {
        CandidateConfig { channels: 1, sample_rate: 16000, sample_format: SampleKind::Float32 }
    } else if index == 1 {
        CandidateConfig { channels: 1, sample_rate: 16000, sample_format: SampleKind::Int16 }
    } else if index == 2 {
        CandidateConfig { channels: 1, sample_rate: 8000, sample_format: SampleKind::Float32 }
    } else if index == 3 {
        CandidateConfig { channels: 1, sample_rate: 8000, sample_format: SampleKind::Int16 }
    } else {
        CandidateConfig { channels: 1, sample_rate: 48000, sample_format: SampleKind::Float32 }
    }
}

/// Appends to `candidates` what the first range of the format `kind` gives.
fn push_candidates_of_kind(
    candidates: &mut Vec<CandidateConfig>,
    supported: &Vec<SupportedRange>,
    kind: SampleKind,
)
    ensures
        exists|added: Seq<CandidateConfig>|
            #[trigger] candidates_of_kind(supported@, kind, added) && final(candidates)@ == old(
                candidates,
            )@ + added,
{
    let ghost before = candidates@;
    let mut i: usize = 0;
    while i < supported.len()
        invariant
            i <= supported.len(),
            candidates@ == before,
            before == old(candidates)@,
            forall|j: int| 0 <= j < i ==> (#[trigger] supported@[j]).sample_format != kind,
        decreases supported.len() - i,
    {
        if supported[i].sample_format == kind {
            let range = supported[i];
            let mut k: usize = 0;
            while k < 5
                invariant
                    k <= 5,
                    i < supported.len(),
                    before == old(candidates)@,
                    range == supported@[i as int],
                    range.sample_format == kind,
                    forall|j: int| 0 <= j < i ==> (#[trigger] supported@[j]).sample_format != kind,
                    candidates@ == before + range_candidates(range, k as nat),
                decreases 5 - k,
            {
                let rate = preferred_rate(k);
                let admitted = range.max_sample_rate == u32::MAX || range.max_sample_rate == 0 || (
                range.min_sample_rate <= rate && rate <= range.max_sample_rate);
                if admitted {
                    candidates.push(
                        CandidateConfig {
                            channels: range.channels,
                            sample_rate: rate,
                            sample_format: range.sample_format,
                        },
                    );
                }
                k += 1;
            }
            proof {
                let added = range_candidates(range, 5);
                assert(candidates_of_kind(supported@, kind, added));
            }
            return ;
        }
        i += 1;
    }
    proof {
        let added = Seq::<CandidateConfig>::empty();
        assert(candidates_of_kind(supported@, kind, added));
    }
}

fn is_covered(candidates: &Vec<CandidateConfig>, rate: u32, kind: SampleKind) -> (covered: bool)
    ensures
        covered == covers(candidates@, rate, kind),
{
    let mut i: usize = 0;
    while i < candidates.len()
        invariant
            i <= candidates.len(),
            forall|j: int|
                0 <= j < i ==> !((#[trigger] candidates@[j]).sample_rate == rate
                    && candidates@[j].sample_format == kind),
        decreases candidates.len() - i,
    {
        if candidates[i].sample_rate == rate && candidates[i].sample_format == kind {
            return true;
        }
        i += 1;
    }
    false
}

/// Lists the configurations to try, in order: for the first range in
/// 32-bit floating point and then for the first range in 16-bit integers,
/// each preferred rate the range admits; then the fallbacks not covered yet.
pub fn generate_candidate_configs(supported: &Vec<SupportedRange>) -> (candidates: Vec<
    CandidateConfig,
>)
    ensures
        exists|floats: Seq<CandidateConfig>, ints: Seq<CandidateConfig>|
            {
                &&& #[trigger] candidates_of_kind(supported@, SampleKind::Float32, floats)
                &&& #[trigger] candidates_of_kind(supported@, SampleKind::Int16, ints)
                &&& candidates@ == with_fallbacks(floats + ints, fallback_configs().len())
            },
{
    let mut candidates: Vec<CandidateConfig> = Vec::new();
    push_candidates_of_kind(&mut candidates, supported, SampleKind::Float32);
    let ghost floats = candidates@;
    push_candidates_of_kind(&mut candidates, supported, SampleKind::Int16);
    let ghost reported = candidates@;
    proof {
        let added = choose|added: Seq<CandidateConfig>|
            #[trigger] candidates_of_kind(supported@, SampleKind::Float32, added) && floats
                == Seq::<CandidateConfig>::empty() + added;
        assert(floats =~= added);
        let ints = choose|ints: Seq<CandidateConfig>|
            #[trigger] candidates_of_kind(supported@, SampleKind::Int16, ints) && reported
                == floats + ints;
        assert(candidates_of_kind(supported@, SampleKind::Int16, ints));
    }
    let mut k: usize = 0;
    while k < 5
        invariant
            k <= 5,
            candidates@ == with_fallbacks(reported, k as nat),
        decreases 5 - k,
    {
        let fallback = fallback_config(k);
        if !is_covered(&candidates, fallback.sample_rate, fallback.sample_format) {
            candidates.push(fallback);
        }
        k += 1;
    }
    candidates
}

/// How a sample format is written in a report.
pub open spec fn kind_name(kind: SampleKind) -> Seq<char> {
    match kind {
        SampleKind::Float32 => "F32"@,
        SampleKind::Int16 => "I16"@,
        SampleKind::Other => "Other"@,
    }
}

/// A configuration in a report: "F32 @ 16000Hz (1 channel)".
pub open spec fn config_text(config: CandidateConfig) -> Seq<char> {
    kind_name(config.sample_format) + " @ "@ + decimal_text(config.sample_rate as nat) + "Hz ("@
        + decimal_text(config.channels as nat) + if config.channels == 1 {
        " channel)"@
    } else {
        " channels)"@
    }
}

/// Writes a configuration for a report.
pub fn describe_config(config: &CandidateConfig) -> (text: String)
    ensures
        text@ == config_text(*config),
{
    let mut text = String::from_str(
        match config.sample_format {
            SampleKind::Float32 => "F32",
            SampleKind::Int16 => "I16",
            SampleKind::Other => "Other",
        },
    );
    text.append(" @ ");
    let rate = decimal_string(config.sample_rate as u64);
    text.append(rate.as_str());
    text.append("Hz (");
    let channels = decimal_string(config.channels as u64);
    text.append(channels.as_str());
    text.append(if config.channels == 1 { " channel)" } else { " channels)" });
    text
}

/// The line that reports a failed attempt with a configuration.
pub open spec fn failure_line(config: CandidateConfig, reason: Seq<char>) -> Seq<char> {
    "  Error: "@ + config_text(config) + " - "@ + reason
}

/// Writes the line that reports a failed attempt.
pub fn describe_failure(config: &CandidateConfig, reason: &str) -> (line: String)
    ensures
        line@ == failure_line(*config, reason@),
{
    let mut line = String::from_str("  Error: ");
    let config_part = describe_config(config);
    line.append(config_part.as_str());
    line.append(" - ");
    line.append(reason);
    line
}

/// The report on a device that no configuration could open: the number of
/// attempts and, line by line, what went wrong with each.
pub open spec fn failure_report(errors: Seq<Seq<char>>) -> Seq<char> {
    "Failed to create audio stream with any configuration. Attempted "@ + decimal_text(
        errors.len(),
    ) + " configurations:\n"@ + joined(errors, "\n"@)
}

/// Writes the report on a device that no configuration could open.
pub fn stream_failure_report(errors: &Vec<String>) -> (report: String)
    ensures
        report@ == failure_report(string_views(errors@)),
{
    let mut report = String::from_str(
        "Failed to create audio stream with any configuration. Attempted ",
    );
    let count = decimal_string(errors.len() as u64);
    report.append(count.as_str());
    report.append(" configurations:\n");
    let lines = join_phrases(errors, "\n");
    report.append(lines.as_str());
    report
}

} // verus!
