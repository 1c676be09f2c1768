//! Recognising the microphone errors the user can act on.

use vstd::prelude::*;
use crate::text::{has_substring, lowercase, str_contains, to_lowercase};

verus! {

/// The error says the microphone is not allowed: "access is denied",
/// "permission denied", or the Windows access-denied code, in any case.
pub open spec fn access_denied_spec(message: Seq<char>) -> bool {
    let m = lowercase(message);
    has_substring(m, "access is denied"@) || has_substring(m, "permission denied"@) || has_substring(
        m,
        "0x80070005"@,
    )
}

/// Whether a recorder error means the microphone was refused.
pub fn is_microphone_access_denied(error_message: &str) -> (r: bool)
    ensures
        r == access_denied_spec(error_message@),
{
    let normalized = to_lowercase(error_message);
    str_contains(normalized.as_str(), "access is denied") || str_contains(
        normalized.as_str(),
        "permission denied",
    ) || str_contains(normalized.as_str(), "0x80070005")
}

/// The error says there is no microphone: "no input device found", or a
/// CoreAudio failure to fetch the preferred config, in any case.
pub open spec fn no_input_device_spec(message: Seq<char>) -> bool {
    let m = lowercase(message);
    has_substring(m, "no input device found"@) || (has_substring(
        m,
        "failed to fetch preferred config"@,
    ) && has_substring(m, "coreaudio"@))
}

/// Whether a recorder error means there is no input device.
pub fn is_no_input_device_error(error_message: &str) -> (r: bool)
    ensures
        r == no_input_device_spec(error_message@),
{
    let normalized = to_lowercase(error_message);
    str_contains(normalized.as_str(), "no input device found") || (str_contains(
        normalized.as_str(),
        "failed to fetch preferred config",
    ) && str_contains(normalized.as_str(), "coreaudio"))
}


/// The distance between two numbers.
pub open spec fn distance(a: int, b: int) -> int {
    if a >= b {
        a - b
    } else {
        b - a
    }
}

/// The analysis window of the level meter for a device sample rate: of 256,
/// 512, 1024 and 2048 samples, the one nearest to a thirtieth of a second
/// (the rate divided by 30, rounded), the smaller on a tie, so the window
/// length and frequency resolution stay about the same across devices.
pub open spec fn window_size_spec(sample_rate: u32) -> usize {
    let t = (sample_rate + 15) / 30;
    let b1: usize = 256;
    let b2: usize = if distance(512, t) < distance(b1 as int, t) {
        512
    } else {
        b1
    };
    let b3: usize = if distance(1024, t) < distance(b2 as int, t) {
        1024
    } else {
        b2
    };
    if distance(2048, t) < distance(b3 as int, t) {
        2048
    } else {
        b3
    }
}

/// How far `w` is from `t`.
fn gap(t: u64, w: u64) -> (r: u64)
    ensures
        r == distance(w as int, t as int),
{
    if t >= w {
        t - w
    } else {
        w - t
    }
}

/// The analysis window of the level meter for a device sample rate (see
/// `window_size_spec`): the candidates are taken in increasing order and a
/// later one wins only when strictly nearer.
pub fn level_window_size(sample_rate: u32) -> (r: usize)
    ensures
        r == window_size_spec(sample_rate),
{
    let t: u64 = (sample_rate as u64 + 15) / 30;
    let mut best: u64 = 256;
    if gap(t, 512) < gap(t, best) {
        best = 512;
    }
    if gap(t, 1024) < gap(t, best) {
        best = 1024;
    }
    if gap(t, 2048) < gap(t, best) {
        best = 2048;
    }
    best as usize
}


/// The sample format of an input configuration, as far as the choice of one
/// cares.
#[derive(Debug, Clone, Copy, PartialEq, Eq, Structural)]
pub enum SampleFormatKind {
    F32,
    I16,
    I32,
    Other,
}

/// How much a sample format is preferred: 32-bit float first, then 16-bit
/// and 32-bit integers, then anything else.
pub open spec fn format_score(f: SampleFormatKind) -> int {
    match f {
        SampleFormatKind::F32 => 4,
        SampleFormatKind::I16 => 3,
        SampleFormatKind::I32 => 2,
        SampleFormatKind::Other => 1,
    }
}

/// One range of input configurations a device supports.
#[derive(Debug, Clone, Copy, PartialEq, Eq, Structural)]
pub struct ConfigRange {
    pub min_sample_rate: u32,
    pub max_sample_rate: u32,
    pub format: SampleFormatKind,
}

/// Whether a range supports sample rate `rate`.
pub open spec fn covers(c: ConfigRange, rate: u32) -> bool {
    c.min_sample_rate <= rate && rate <= c.max_sample_rate
}

/// The range to record with at the device's own rate `rate`: among the
/// ranges that support it, the first with the most preferred format; `None`
/// when none does (the device default is then used).
pub open spec fn preferred_config_spec(r: Seq<ConfigRange>, rate: u32) -> Option<int>
    decreases r.len(),
{
    if r.len() == 0 {
        None
    } else {
        let prev = preferred_config_spec(r.drop_last(), rate);
        let c = r.last();
        if !covers(c, rate) {
            prev
        } else {
            match prev {
                None => Some(r.len() - 1),
                Some(j) => if format_score(c.format) > format_score(r[j].format) {
                    Some(r.len() - 1)
                } else {
                    prev
                },
            }
        }
    }
}

/// The score of a sample format (see `format_score`).
fn score_of(f: SampleFormatKind) -> (r: u8)
    ensures
        r == format_score(f),
{
    match f {
        SampleFormatKind::F32 => 4,
        SampleFormatKind::I16 => 3,
        SampleFormatKind::I32 => 2,
        SampleFormatKind::Other => 1,
    }
}

/// The position of the configuration range to record with at the device's
/// own sample rate (see `preferred_config_spec`), so the hardware is never
/// forced to another rate.
pub fn preferred_config(ranges: &[ConfigRange], rate: u32) -> (r: Option<usize>)
    ensures
        match r {
            Some(i) => preferred_config_spec(ranges@, rate) == Some(i as int),
            None => preferred_config_spec(ranges@, rate) is None,
        },
{
    let mut best: Option<usize> = None;
    let mut i: usize = 0;
    while i < ranges.len()
        invariant
            i <= ranges@.len(),
            match best {
                Some(b) => b < i && preferred_config_spec(ranges@.take(i as int), rate) == Some(
                    b as int,
                ),
                None => preferred_config_spec(ranges@.take(i as int), rate) is None,
            },
        decreases ranges.len() - i,
    {
        proof {
            assert(ranges@.take(i + 1).drop_last() =~= ranges@.take(i as int));
            assert(ranges@.take(i + 1).last() == ranges@[i as int]);
            match best {
                Some(b) => {
                    assert(ranges@.take(i + 1)[b as int] == ranges@[b as int]);
                },
                None => {},
            }
        }
        let c = ranges[i];
        if c.min_sample_rate <= rate && rate <= c.max_sample_rate {
            match best {
                None => {
                    best = Some(i);
                },
                Some(b) => {
                    if score_of(c.format) > score_of(ranges[b].format) {
                        best = Some(i);
                    }
                },
            }
        }
        i += 1;
    }
    proof {
        assert(ranges@.take(ranges@.len() as int) =~= ranges@);
    }
    best
}

/// The chosen range records at the device's rate, has the most preferred
/// format of all ranges that do, and comes first among those of that format;
/// nothing is chosen only when no range supports the rate.
pub proof fn lemma_preferred_config_is_best(r: Seq<ConfigRange>, rate: u32)
    ensures
        match preferred_config_spec(r, rate) {
            Some(i) => {
                &&& 0 <= i < r.len()
                &&& r[i].min_sample_rate <= rate <= r[i].max_sample_rate
                &&& forall|j: int|
                    0 <= j < r.len() && r[j].min_sample_rate <= rate <= r[j].max_sample_rate
                        ==> format_score(#[trigger] r[j].format) <= format_score(r[i].format)
                &&& forall|j: int|
                    0 <= j < i && r[j].min_sample_rate <= rate <= r[j].max_sample_rate
                        ==> format_score(#[trigger] r[j].format) < format_score(r[i].format)
            },
            None => forall|j: int|
                0 <= j < r.len() ==> !(#[trigger] r[j].min_sample_rate <= rate
                    <= r[j].max_sample_rate),
        },
    decreases r.len(),
{
    if r.len() > 0 {
        let p = r.drop_last();
        let n = r.len() - 1;
        lemma_preferred_config_is_best(p, rate);
        assert forall|j: int| 0 <= j < p.len() implies #[trigger] p[j] == r[j] by {}
        assert(r.last() == r[n]);
        match preferred_config_spec(p, rate) {
            None => {
                assert forall|j: int| 0 <= j < n implies !(#[trigger] r[j].min_sample_rate <= rate
                    <= r[j].max_sample_rate) by {
                    assert(p[j] == r[j]);
                }
            },
            Some(i) => {
                assert(p[i] == r[i]);
                assert forall|j: int|
                    0 <= j < n && r[j].min_sample_rate <= rate <= r[j].max_sample_rate implies format_score(
                    #[trigger] r[j].format,
                ) <= format_score(r[i].format) by {
                    assert(p[j] == r[j]);
                }
                assert forall|j: int|
                    0 <= j < i && r[j].min_sample_rate <= rate <= r[j].max_sample_rate implies format_score(
                    #[trigger] r[j].format,
                ) < format_score(r[i].format) by {
                    assert(p[j] == r[j]);
                }
            },
        }
    }
}

} // verus!
