//! Argument checks and status shapes for the meetings feature.

use vstd::prelude::*;
use crate::audio::loopback::{loopback_supported, loopback_supported_spec, MACOS_PERMISSION_HELP};
use crate::autolearn::detect::string_views;
use crate::platform::Platform;
use crate::clock::{date_text, local_now_texts, time_text, DATETIME_LINE_FORMAT, DATE_FORMAT, TIME_FORMAT};
use crate::text::{concat, trim, trim_ws};

verus! {

/// Default page size of the meeting list.
pub const MEETING_PAGE_SIZE: u32 = 30;

/// Upper bound on any page request.
pub const MAX_PAGE_SIZE: u32 = 500;

/// Whether this machine can capture the other participants of a call.
#[derive(Clone, Debug)]
pub struct SystemAudioStatus {
    /// A loopback source exists on this platform.
    pub supported: bool,
    /// What the user must grant before capture works, if anything.
    pub help: Option<String>,
}

/// Whether call detection can work here, and whether it is on.
#[derive(Clone, Debug)]
pub struct CallDetectionStatus {
    pub supported: bool,
    pub enabled: bool,
}

/// Whether per-speaker labelling is available on this machine.
#[derive(Clone, Debug)]
pub struct DiarizationStatus {
    /// The speaker-embedding model is on disk.
    pub installed: bool,
    /// Download size, in megabytes.
    pub download_mb: u32,
}

/// Clamp a caller-supplied page size to something a query can serve: the
/// request, or the default when there is none, between 1 and
/// `MAX_PAGE_SIZE`.
pub fn page_size(requested: Option<u32>, default: u32) -> (r: u32)
    ensures
        ({
            let v = match requested {
                Some(n) => n,
                None => default,
            };
            r == if v < 1 {
                1
            } else if v > MAX_PAGE_SIZE {
                MAX_PAGE_SIZE
            } else {
                v
            }
        }),
{
    let v = match requested {
        Some(n) => n,
        None => default,
    };
    if v < 1 {
        1
    } else if v > MAX_PAGE_SIZE {
        MAX_PAGE_SIZE
    } else {
        v
    }
}

/// The message for a blank value.
pub const CANNOT_BE_EMPTY: &'static str = " cannot be empty.";

/// Reject a blank title or name before it is stored: the value trimmed, or,
/// when nothing is left, the error "`what` cannot be empty.".
pub fn require_text(value: &str, what: &str) -> (r: Result<String, String>)
    ensures
        match r {
            Ok(s) => trim_ws(value@).len() > 0 && s@ == trim_ws(value@),
            Err(e) => trim_ws(value@).len() == 0 && e@ == what@ + CANNOT_BE_EMPTY@,
        },
{
    let trimmed = trim(value);
    if trimmed.unicode_len() == 0 {
        return Err(concat(what, CANNOT_BE_EMPTY));
    }
    Ok(trimmed)
}

/// Whether system audio can be captured on `platform` with these input
/// devices, and the permission the user must grant on macOS, where capture
/// can silently yield silence without it.
pub fn system_audio_status(platform: Platform, devices: &[String]) -> (r: SystemAudioStatus)
    ensures
        r.supported == loopback_supported_spec(platform, string_views(devices@)),
        match r.help {
            Some(h) => platform == Platform::MacOs && h@ == MACOS_PERMISSION_HELP@,
            None => platform != Platform::MacOs,
        },
{
    SystemAudioStatus {
        supported: loopback_supported(platform, devices),
        help: if platform == Platform::MacOs {
            Some(MACOS_PERMISSION_HELP.to_owned())
        } else {
            None
        },
    }
}

/// The title of a new meeting: the given title trimmed, or `fallback` (the
/// local start time) when none is given or it is blank.
pub fn meeting_title(title: Option<String>, fallback: String) -> (r: String)
    ensures
        r@ == match title {
            Some(t) => if trim_ws(t@).len() > 0 {
                trim_ws(t@)
            } else {
                fallback@
            },
            None => fallback@,
        },
{
    match title {
        Some(t) => {
            let trimmed = trim(t.as_str());
            if trimmed.unicode_len() > 0 {
                trimmed
            } else {
                fallback
            }
        },
        None => fallback,
    }
}

/// The title of a meeting that starts now: the given title trimmed, or else
/// the local date and time of the start, as "2024-05-01 14:30". The reading
/// is whatever the clock gives; its form is that of `date_text` and
/// `time_text`.
pub fn new_meeting_title(title: Option<String>) -> (r: String)
    ensures
        match title {
            Some(t) => trim_ws(t@).len() > 0 ==> r@ == trim_ws(t@),
            None => true,
        },
        (match title {
            Some(t) => trim_ws(t@).len() == 0,
            None => true,
        }) ==> exists|date: Seq<char>, time: Seq<char>|
            #![trigger date_text(date), time_text(time)]
            date_text(date) && time_text(time) && r@ == date + " "@ + time,
{
    let blank = match &title {
        Some(t) => trim(t.as_str()).unicode_len() == 0,
        None => true,
    };
    if blank {
        let (date, time, _) = local_now_texts(DATE_FORMAT, TIME_FORMAT, DATETIME_LINE_FORMAT);
        let stamp = concat(concat(date.as_str(), " ").as_str(), time.as_str());
        let r = meeting_title(title, stamp);
        assert(r@ == date@ + " "@ + time@);
        r
    } else {
        meeting_title(title, String::new())
    }
}

/// The language hint of a new meeting: the given language, or else the
/// configured transcription language, whichever is first non-blank, trimmed.
pub fn meeting_language(language: Option<String>, configured: &str) -> (r: Option<String>)
    ensures
        match language {
            Some(l) if trim_ws(l@).len() > 0 => r matches Some(s) && s@ == trim_ws(l@),
            _ => if trim_ws(configured@).len() > 0 {
                r matches Some(s) && s@ == trim_ws(configured@)
            } else {
                r is None
            },
        },
{
    if let Some(l) = language {
        let trimmed = trim(l.as_str());
        if trimmed.unicode_len() > 0 {
            return Some(trimmed);
        }
    }
    let trimmed = trim(configured);
    if trimmed.unicode_len() > 0 {
        Some(trimmed)
    } else {
        None
    }
}

} // verus!
