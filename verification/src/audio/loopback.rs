//! System-audio ("loopback") capture: the other side of a call.
//!
//! Windows captures the default output endpoint directly. Linux captures a
//! PulseAudio/PipeWire monitor source, which appears as an ordinary input
//! device. macOS needs a virtual loopback device such as BlackHole. This
//! module picks that device from the input devices' names, and turns a
//! capture error into a cause the user can act on.

use vstd::prelude::*;
use crate::autolearn::detect::string_views;
use crate::platform::Platform;
use crate::text::{chars_of, concat, has_substring, lowercase, str_contains, to_lowercase};

verus! {

/// Why loopback capture could not start. Each variant carries a message
/// written for the user.
#[derive(Debug, Clone)]
pub enum LoopbackError {
    /// No mechanism exists on this platform or configuration.
    Unsupported(String),
    /// The operating system refused.
    PermissionDenied(String),
    /// The mechanism exists but no usable endpoint was found.
    NoDevice(String),
    /// Anything else, with the underlying error preserved.
    Failed(String),
}

/// The kind of a loopback error, with its message.
pub ghost enum LoopbackErrorView {
    Unsupported(Seq<char>),
    PermissionDenied(Seq<char>),
    NoDevice(Seq<char>),
    Failed(Seq<char>),
}

impl View for LoopbackError {
    type V = LoopbackErrorView;

    open spec fn view(&self) -> LoopbackErrorView {
        match self {
            LoopbackError::Unsupported(m) => LoopbackErrorView::Unsupported(m@),
            LoopbackError::PermissionDenied(m) => LoopbackErrorView::PermissionDenied(m@),
            LoopbackError::NoDevice(m) => LoopbackErrorView::NoDevice(m@),
            LoopbackError::Failed(m) => LoopbackErrorView::Failed(m@),
        }
    }
}

/// The message a loopback error carries.
pub open spec fn error_message(e: LoopbackErrorView) -> Seq<char> {
    match e {
        LoopbackErrorView::Unsupported(m) => m,
        LoopbackErrorView::PermissionDenied(m) => m,
        LoopbackErrorView::NoDevice(m) => m,
        LoopbackErrorView::Failed(m) => m,
    }
}

impl LoopbackError {
    /// The message for the user: the text the error carries.
    pub fn message(&self) -> (r: String)
        ensures
            r@ == error_message(self@),
    {
        match self {
            LoopbackError::Unsupported(m) => m.clone(),
            LoopbackError::PermissionDenied(m) => m.clone(),
            LoopbackError::NoDevice(m) => m.clone(),
            LoopbackError::Failed(m) => m.clone(),
        }
    }
}

/// On macOS, holding "Screen Recording and System Audio" without "System
/// Audio Only" makes capture return silence without ever asking; this is the
/// explanation shown for it.
pub const MACOS_PERMISSION_HELP: &'static str = "macOS needs the \"System Audio Only\" permission, which is separate from \"Screen Recording and System Audio\". Open System Settings > Privacy & Security > Screen & System Audio Recording and add SpeakoFlow under System Audio Only. Without it macOS records silence without ever asking.";

/// Joins an error to the macOS explanation.
pub const SENTENCE_BREAK: &'static str = ". ";

/// A backend error that reads as a refusal.
pub open spec fn is_permission_message(msg: Seq<char>) -> bool {
    let m = lowercase(msg);
    has_substring(m, "denied"@) || has_substring(m, "permission"@) || has_substring(
        m,
        "not authorized"@,
    ) || has_substring(m, "unauthorized"@)
}

/// Map a backend error message onto a cause the user can act on. A refusal
/// is a permission error; on macOS, where a refusal and a device failure
/// look alike and the refusal is far more likely, it carries the
/// explanation of the permission. Anything else is a failure with the
/// message kept.
pub fn classify_cpal_error(msg: &str, platform: Platform) -> (r: LoopbackError)
    ensures
        r@ == if is_permission_message(msg@) {
            if platform == Platform::MacOs {
                LoopbackErrorView::PermissionDenied(msg@ + SENTENCE_BREAK@ + MACOS_PERMISSION_HELP@)
            } else {
                LoopbackErrorView::PermissionDenied(msg@)
            }
        } else {
            LoopbackErrorView::Failed(msg@)
        },
{
    let lowered = to_lowercase(msg);
    let l = lowered.as_str();
    if str_contains(l, "denied") || str_contains(l, "permission") || str_contains(
        l,
        "not authorized",
    ) || str_contains(l, "unauthorized") {
        if platform == Platform::MacOs {
            let head = concat(msg, SENTENCE_BREAK);
            return LoopbackError::PermissionDenied(concat(head.as_str(), MACOS_PERMISSION_HELP));
        }
        return LoopbackError::PermissionDenied(msg.to_owned());
    }
    LoopbackError::Failed(msg.to_owned())
}

/// How a device name is tested.
#[derive(Clone, Copy, Debug, PartialEq, Eq, Structural)]
pub enum NameTest {
    /// The name ends with ".monitor".
    MonitorSuffix,
    /// The name contains "monitor".
    MentionsMonitor,
    /// The lowercased name contains "loopback".
    MentionsLoopback,
    /// The lowercased name contains the known virtual-device name with this
    /// index.
    KnownVirtual(usize),
}

/// How many virtual-device names are known.
pub const KNOWN_VIRTUAL_COUNT: usize = 8;

/// Substrings of known virtual-audio driver names, most preferred first.
pub open spec fn known_virtual(k: int) -> Seq<char> {
    if k == 0 {
        "blackhole"@
    } else if k == 1 {
        "loopback audio"@
    } else if k == 2 {
        "existential audio"@
    } else if k == 3 {
        "soundflower"@
    } else if k == 4 {
        "ishowu"@
    } else if k == 5 {
        "vb-cable"@
    } else if k == 6 {
        "multi-output"@
    } else {
        "aggregate"@
    }
}

/// The known virtual-device name with index `k`.
fn known_virtual_name(k: usize) -> (r: &'static str)
    requires
        k < KNOWN_VIRTUAL_COUNT,
    ensures
        r@ == known_virtual(k as int),
{
    if k == 0 {
        "blackhole"
    } else if k == 1 {
        "loopback audio"
    } else if k == 2 {
        "existential audio"
    } else if k == 3 {
        "soundflower"
    } else if k == 4 {
        "ishowu"
    } else if k == 5 {
        "vb-cable"
    } else if k == 6 {
        "multi-output"
    } else {
        "aggregate"
    }
}

/// `name` ends with `suffix`.
pub open spec fn ends_with(name: Seq<char>, suffix: Seq<char>) -> bool {
    name.len() >= suffix.len() && name.subrange(name.len() - suffix.len(), name.len() as int)
        == suffix
}

/// Whether `name` passes `test`.
pub open spec fn passes(test: NameTest, name: Seq<char>) -> bool {
    match test {
        NameTest::MonitorSuffix => ends_with(name, ".monitor"@),
        NameTest::MentionsMonitor => has_substring(name, "monitor"@),
        NameTest::MentionsLoopback => has_substring(lowercase(name), "loopback"@),
        NameTest::KnownVirtual(k) => has_substring(lowercase(name), known_virtual(k as int)),
    }
}

/// Decides `ends_with`.
fn ends_with_chars(name: &[char], suffix: &str) -> (r: bool)
    ensures
        r == ends_with(name@, suffix@),
{
    let s = chars_of(suffix);
    if s.len() > name.len() {
        return false;
    }
    let offset = name.len() - s.len();
    let mut i: usize = 0;
    while i < s.len()
        invariant
            i <= s@.len(),
            s@ == suffix@,
            offset + s@.len() == name@.len(),
            name@.len() <= usize::MAX,
            forall|t: int| 0 <= t < i ==> name@[offset + t] == s@[t],
        decreases s.len() - i,
    {
        if name[offset + i] != s[i] {
            assert(name@.subrange(offset as int, name@.len() as int)[i as int] != s@[i as int]);
            return false;
        }
        i += 1;
    }
    assert(name@.subrange(offset as int, name@.len() as int) =~= s@);
    true
}

/// Decides `passes`.
fn name_passes(test: NameTest, name: &String) -> (r: bool)
    requires
        test matches NameTest::KnownVirtual(k) ==> k < KNOWN_VIRTUAL_COUNT,
    ensures
        r == passes(test, name@),
{
    match test {
        NameTest::MonitorSuffix => ends_with_chars(chars_of(name.as_str()).as_slice(), ".monitor"),
        NameTest::MentionsMonitor => str_contains(name.as_str(), "monitor"),
        NameTest::MentionsLoopback => {
            let lowered = to_lowercase(name.as_str());
            str_contains(lowered.as_str(), "loopback")
        },
        NameTest::KnownVirtual(k) => {
            let lowered = to_lowercase(name.as_str());
            str_contains(lowered.as_str(), known_virtual_name(k))
        },
    }
}

/// `i` is the first name that passes `test`.
pub open spec fn is_first_pass(names: Seq<Seq<char>>, test: NameTest, i: int) -> bool {
    0 <= i < names.len() && passes(test, names[i]) && forall|j: int|
        0 <= j < i ==> !passes(test, #[trigger] names[j])
}

/// Some name passes `test`.
pub open spec fn any_pass(names: Seq<Seq<char>>, test: NameTest) -> bool {
    exists|i: int| 0 <= i < names.len() && passes(test, #[trigger] names[i])
}

/// The first name that passes `test`.
fn first_passing(names: &[String], test: NameTest) -> (r: Option<usize>)
    requires
        test matches NameTest::KnownVirtual(k) ==> k < KNOWN_VIRTUAL_COUNT,
    ensures
        match r {
            Some(i) => is_first_pass(string_views(names@), test, i as int),
            None => !any_pass(string_views(names@), test),
        },
{
    let ghost ns = string_views(names@);
    let mut i: usize = 0;
    while i < names.len()
        invariant
            i <= names@.len(),
            ns == string_views(names@),
            test matches NameTest::KnownVirtual(k) ==> k < KNOWN_VIRTUAL_COUNT,
            forall|j: int| 0 <= j < i ==> !passes(test, #[trigger] ns[j]),
        decreases names.len() - i,
    {
        if name_passes(test, &names[i]) {
            return Some(i);
        }
        i += 1;
    }
    None
}

/// The monitor source to capture on Linux: the first device whose name ends
/// with ".monitor", else the first that mentions "monitor", else the first
/// whose name mentions "loopback" in any case.
pub open spec fn monitor_source_spec(names: Seq<Seq<char>>) -> Option<int> {
    if any_pass(names, NameTest::MonitorSuffix) {
        Some(choose|i: int| is_first_pass(names, NameTest::MonitorSuffix, i))
    } else if any_pass(names, NameTest::MentionsMonitor) {
        Some(choose|i: int| is_first_pass(names, NameTest::MentionsMonitor, i))
    } else if any_pass(names, NameTest::MentionsLoopback) {
        Some(choose|i: int| is_first_pass(names, NameTest::MentionsLoopback, i))
    } else {
        None
    }
}

/// There is only one first passing name.
proof fn lemma_first_pass_unique(names: Seq<Seq<char>>, test: NameTest, i: int, j: int)
    requires
        is_first_pass(names, test, i),
        is_first_pass(names, test, j),
    ensures
        i == j,
{
    if i < j {
        assert(!passes(test, names[i]));
    } else if j < i {
        assert(!passes(test, names[j]));
    }
}

/// Find a PulseAudio/PipeWire monitor source among the input devices, by
/// index. An explicit ".monitor" suffix is preferred over a name that merely
/// mentions "monitor", so a physical device with "monitor" in its product
/// name is not picked by accident.
pub fn find_monitor_source(names: &[String]) -> (r: Option<usize>)
    ensures
        match r {
            Some(i) => monitor_source_spec(string_views(names@)) == Some(i as int),
            None => monitor_source_spec(string_views(names@)) is None,
        },
{
    let ghost ns = string_views(names@);
    if let Some(i) = first_passing(names, NameTest::MonitorSuffix) {
        proof {
            let c = choose|k: int| is_first_pass(ns, NameTest::MonitorSuffix, k);
            lemma_first_pass_unique(ns, NameTest::MonitorSuffix, c, i as int);
        }
        return Some(i);
    }
    if let Some(i) = first_passing(names, NameTest::MentionsMonitor) {
        proof {
            let c = choose|k: int| is_first_pass(ns, NameTest::MentionsMonitor, k);
            lemma_first_pass_unique(ns, NameTest::MentionsMonitor, c, i as int);
        }
        return Some(i);
    }
    if let Some(i) = first_passing(names, NameTest::MentionsLoopback) {
        proof {
            let c = choose|k: int| is_first_pass(ns, NameTest::MentionsLoopback, k);
            lemma_first_pass_unique(ns, NameTest::MentionsLoopback, c, i as int);
        }
        return Some(i);
    }
    None
}

/// Some name contains the known virtual-device name with index `m`.
pub open spec fn known_present(names: Seq<Seq<char>>, m: int) -> bool {
    any_pass(names, NameTest::KnownVirtual(m as usize))
}

/// Some name contains a known virtual-device name with index below `k`.
pub open spec fn some_known_before(names: Seq<Seq<char>>, k: int) -> bool {
    exists|m: int| 0 <= m < k && #[trigger] known_present(names, m)
}

/// The virtual device to capture on macOS: for the most preferred known
/// virtual-device name that any device's lowercased name contains, the
/// first such device.
pub open spec fn virtual_device_spec(names: Seq<Seq<char>>) -> Option<int> {
    if some_known_before(names, KNOWN_VIRTUAL_COUNT as int) {
        let k = choose|k: int|
            0 <= k < KNOWN_VIRTUAL_COUNT && known_present(names, k) && !some_known_before(names, k);
        Some(choose|i: int| #[trigger] is_first_pass(names, NameTest::KnownVirtual(k as usize), i))
    } else {
        None
    }
}

/// Find an installed virtual audio device among the input devices, by
/// index, trying the known names in order of preference.
pub fn find_virtual_loopback_device(names: &[String]) -> (r: Option<usize>)
    ensures
        match r {
            Some(i) => virtual_device_spec(string_views(names@)) == Some(i as int),
            None => virtual_device_spec(string_views(names@)) is None,
        },
{
    let ghost ns = string_views(names@);
    let mut k: usize = 0;
    while k < KNOWN_VIRTUAL_COUNT
        invariant
            k <= KNOWN_VIRTUAL_COUNT,
            ns == string_views(names@),
            !some_known_before(ns, k as int),
        decreases KNOWN_VIRTUAL_COUNT - k,
    {
        if let Some(i) = first_passing(names, NameTest::KnownVirtual(k)) {
            proof {
                assert(known_present(ns, k as int));
                assert(some_known_before(ns, KNOWN_VIRTUAL_COUNT as int));
                assert(0 <= k < KNOWN_VIRTUAL_COUNT && known_present(ns, k as int)
                    && !some_known_before(ns, k as int));
                let c = choose|c: int|
                    0 <= c < KNOWN_VIRTUAL_COUNT && known_present(ns, c) && !some_known_before(ns, c);
                if c < k {
                    assert(some_known_before(ns, k as int));
                } else if c > k {
                    assert(some_known_before(ns, c));
                }
                let f = choose|f: int| #[trigger] is_first_pass(ns, NameTest::KnownVirtual(c as usize), f);
                lemma_first_pass_unique(ns, NameTest::KnownVirtual(k), f, i as int);
            }
            return Some(i);
        }
        proof {
            assert forall|m: int| 0 <= m < k + 1 implies !#[trigger] known_present(ns, m) by {
                if m < k {
                    if known_present(ns, m) {
                        assert(some_known_before(ns, k as int));
                    }
                } else {
                    assert(m == k);
                }
            }
        }
        k += 1;
    }
    None
}

/// Whether system audio can be captured: always on Windows; on Linux when a
/// monitor source exists; on macOS when a virtual loopback device exists;
/// never elsewhere.
pub open spec fn loopback_supported_spec(platform: Platform, names: Seq<Seq<char>>) -> bool {
    match platform {
        Platform::Windows => true,
        Platform::Linux => monitor_source_spec(names) is Some,
        Platform::MacOs => virtual_device_spec(names) is Some,
        Platform::Other => false,
    }
}

/// Whether this platform, with these input devices, can capture system
/// audio. A `true` does not promise that capture starts: permissions are
/// only known by trying.
pub fn loopback_supported(platform: Platform, names: &[String]) -> (r: bool)
    ensures
        r == loopback_supported_spec(platform, string_views(names@)),
{
    match platform {
        Platform::Windows => true,
        Platform::Linux => find_monitor_source(names).is_some(),
        Platform::MacOs => find_virtual_loopback_device(names).is_some(),
        Platform::Other => false,
    }
}

} // verus!
