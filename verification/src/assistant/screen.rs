//! Who may look at the screen, and when.
//!
//! In Manual mode every user-controlled screen operation (the armed camera,
//! a region snip, a frame captured at recording start) carries a token
//! issued under the current mode. Leaving or re-entering Manual advances a
//! generation, which makes every token issued before it stale before it can
//! reach an overlay or a provider.

use vstd::prelude::*;
use crate::settings::AssistantScreenAccessMode;

verus! {

/// The generation after `g`: one more, wrapping at the top of the range.
pub open spec fn next_generation(g: u64) -> u64 {
    if g == u64::MAX {
        0
    } else {
        (g + 1) as u64
    }
}

/// `next_generation`, computed.
pub fn advance_generation(g: u64) -> (r: u64)
    ensures
        r == next_generation(g),
        r != g,
{
    if g == u64::MAX {
        0
    } else {
        g + 1
    }
}

/// The authorization after entering `mode`: a change of mode advances the
/// generation.
pub open spec fn transitioned(auth: (AssistantScreenAccessMode, u64), mode: AssistantScreenAccessMode) -> (
    AssistantScreenAccessMode,
    u64,
) {
    if auth.0 != mode {
        (mode, next_generation(auth.1))
    } else {
        auth
    }
}

/// A token of generation `token` may be used under `auth`: the mode is
/// Manual and the generation is the current one.
pub open spec fn token_current(auth: (AssistantScreenAccessMode, u64), token: u64) -> bool {
    auth.0 == AssistantScreenAccessMode::Manual && token == auth.1
}

/// Authorization carried by one user-controlled screen operation.
#[derive(Debug, Clone, Copy, PartialEq, Eq, Structural)]
pub struct ManualScreenToken {
    generation: u64,
}

impl View for ManualScreenToken {
    type V = u64;

    closed spec fn view(&self) -> u64 {
        self.generation
    }
}

/// The current screen-access mode and the generation tokens are issued
/// under.
#[derive(Debug)]
pub struct ManualScreenAuthorization {
    mode: AssistantScreenAccessMode,
    generation: u64,
}

impl View for ManualScreenAuthorization {
    type V = (AssistantScreenAccessMode, u64);

    closed spec fn view(&self) -> (AssistantScreenAccessMode, u64) {
        (self.mode, self.generation)
    }
}

impl Default for ManualScreenAuthorization {
    /// Manual mode, generation zero.
    fn default() -> (r: Self)
        ensures
            r@ == (AssistantScreenAccessMode::Manual, 0u64),
    {
        ManualScreenAuthorization { mode: AssistantScreenAccessMode::Manual, generation: 0 }
    }
}

impl ManualScreenAuthorization {
    /// Enter `mode`. A change of mode advances the generation; entering the
    /// current mode changes nothing.
    pub fn transition(&mut self, mode: AssistantScreenAccessMode)
        ensures
            final(self)@ == transitioned(old(self)@, mode),
    {
        if self.mode != mode {
            self.mode = mode;
            self.generation = advance_generation(self.generation);
        }
    }

    /// A token for a Manual operation, under the current generation; none
    /// outside Manual mode.
    pub fn authorize(&self) -> (r: Option<ManualScreenToken>)
        ensures
            match r {
                Some(t) => self@.0 == AssistantScreenAccessMode::Manual && t@ == self@.1,
                None => self@.0 != AssistantScreenAccessMode::Manual,
            },
    {
        if self.mode == AssistantScreenAccessMode::Manual {
            Some(ManualScreenToken { generation: self.generation })
        } else {
            None
        }
    }

    /// Whether `token` may still be used: the mode is Manual and the token
    /// was issued under the current generation.
    pub fn token_is_current(&self, token: ManualScreenToken) -> (r: bool)
        ensures
            r == token_current(self@, token@),
    {
        self.mode == AssistantScreenAccessMode::Manual && token.generation == self.generation
    }

    /// The mode the authorization follows.
    pub fn mode(&self) -> (r: AssistantScreenAccessMode)
        ensures
            r == self@.0,
    {
        self.mode
    }

    /// Invalidate every token issued so far, keeping the mode.
    pub fn revoke(&mut self)
        ensures
            final(self)@ == (old(self)@.0, next_generation(old(self)@.1)),
    {
        self.generation = advance_generation(self.generation);
    }
}

/// A change of mode makes every token issued before it stale: a token that
/// was current is not current after a transition to another mode.
pub proof fn lemma_mode_change_revokes_tokens(
    before: (AssistantScreenAccessMode, u64),
    mode: AssistantScreenAccessMode,
    token: u64,
)
    requires
        token_current(before, token),
        mode != before.0,
    ensures
        !token_current(transitioned(before, mode), token),
{
}

/// A token issued by `authorize` is current until the mode changes, and
/// entering the mode already in force keeps it current.
pub proof fn lemma_issued_token_stays_current_without_mode_change(
    auth: (AssistantScreenAccessMode, u64),
)
    requires
        auth.0 == AssistantScreenAccessMode::Manual,
    ensures
        token_current(auth, auth.1),
        token_current(transitioned(auth, AssistantScreenAccessMode::Manual), auth.1),
{
}

/// Leaving Manual and coming back yields a new generation: a token from
/// before the round trip stays stale.
pub proof fn lemma_round_trip_keeps_old_tokens_stale(
    before: (AssistantScreenAccessMode, u64),
    away: AssistantScreenAccessMode,
    token: u64,
)
    requires
        token_current(before, token),
        away != AssistantScreenAccessMode::Manual,
    ensures
        !token_current(
            transitioned(transitioned(before, away), AssistantScreenAccessMode::Manual),
            token,
        ),
{
}

/// The authorization after entering each mode of `modes` in turn.
pub open spec fn after_transitions(
    auth: (AssistantScreenAccessMode, u64),
    modes: Seq<AssistantScreenAccessMode>,
) -> (AssistantScreenAccessMode, u64)
    decreases modes.len(),
{
    if modes.len() == 0 {
        auth
    } else {
        transitioned(after_transitions(auth, modes.drop_last()), modes.last())
    }
}

/// How many of the transitions in `modes` change the mode, each advancing
/// the generation once.
pub open spec fn mode_changes(
    auth: (AssistantScreenAccessMode, u64),
    modes: Seq<AssistantScreenAccessMode>,
) -> nat
    decreases modes.len(),
{
    if modes.len() == 0 {
        0
    } else {
        mode_changes(auth, modes.drop_last()) + if after_transitions(auth, modes.drop_last()).0
            != modes.last() {
            1nat
        } else {
            0nat
        }
    }
}

/// The number of generations before they wrap around.
pub open spec fn generation_count() -> int {
    0x1_0000_0000_0000_0000
}

/// After a run of transitions, the generation has moved on by the number of
/// mode changes, around the range.
proof fn lemma_generation_after_transitions(
    auth: (AssistantScreenAccessMode, u64),
    modes: Seq<AssistantScreenAccessMode>,
)
    ensures
        after_transitions(auth, modes).1 as int == (auth.1 + mode_changes(auth, modes))
            % generation_count(),
    decreases modes.len(),
{
    if modes.len() > 0 {
        lemma_generation_after_transitions(auth, modes.drop_last());
        let x = auth.1 + mode_changes(auth, modes.drop_last());
        let m = generation_count();
        assert((x + 1) % m == if x % m == m - 1 {
            0
        } else {
            x % m + 1
        }) by (nonlinear_arith)
            requires
                x >= 0,
                m == 0x1_0000_0000_0000_0000,
        ;
    }
}

/// A token stays stale over any run of mode changes: once a transition
/// away from the mode it was issued under has happened, no later run of
/// transitions (changing the mode fewer times than there are generations)
/// makes it current again, back in Manual or not.
pub proof fn lemma_tokens_stay_stale_over_any_run(
    before: (AssistantScreenAccessMode, u64),
    modes: Seq<AssistantScreenAccessMode>,
    token: u64,
)
    requires
        token_current(before, token),
        modes.len() > 0,
        modes[0] != before.0,
        mode_changes(before, modes) < generation_count(),
    ensures
        !token_current(after_transitions(before, modes), token),
{
    lemma_generation_after_transitions(before, modes);
    lemma_first_transition_changes(before, modes);
    let k = mode_changes(before, modes);
    let b = before.1 as int;
    let m = generation_count();
    assert((b + k) % m != b) by (nonlinear_arith)
        requires
            0 <= b < m,
            1 <= k < m,
            m == 0x1_0000_0000_0000_0000,
    ;
}

/// When the first of the transitions changes the mode, at least one change
/// is counted.
proof fn lemma_first_transition_changes(
    before: (AssistantScreenAccessMode, u64),
    modes: Seq<AssistantScreenAccessMode>,
)
    requires
        modes.len() > 0,
        modes[0] != before.0,
    ensures
        mode_changes(before, modes) >= 1,
    decreases modes.len(),
{
    if modes.len() == 1 {
        assert(modes.drop_last().len() == 0);
        assert(after_transitions(before, modes.drop_last()) == before);
    } else {
        let rest = modes.drop_last();
        assert(rest[0] == modes[0]);
        lemma_first_transition_changes(before, rest);
    }
}

/// The epoch after `e`: one more, wrapping, and never zero.
pub open spec fn next_epoch(e: u64) -> u64 {
    if e == u64::MAX {
        1
    } else {
        (e + 1) as u64
    }
}

/// The epoch after `n` advances from `e`.
pub open spec fn advanced_epoch(e: u64, n: nat) -> u64
    decreases n,
{
    if n == 0 {
        e
    } else {
        next_epoch(advanced_epoch(e, (n - 1) as nat))
    }
}

/// From an epoch that advances have issued, `n` more advances reach the
/// epoch `n` further round the cycle of the non-zero epochs.
proof fn lemma_advanced_epoch_cycles(e: u64, n: nat)
    requires
        e != 0,
    ensures
        advanced_epoch(e, n) as int == (e - 1 + n) % (u64::MAX as int) + 1,
    decreases n,
{
    if n > 0 {
        lemma_advanced_epoch_cycles(e, (n - 1) as nat);
        let x = e - 1 + (n - 1);
        let m = u64::MAX as int;
        assert((x + 1) % m == if x % m == m - 1 {
            0
        } else {
            x % m + 1
        }) by (nonlinear_arith)
            requires
                x >= 0,
                m == 0xffff_ffff_ffff_ffff,
        ;
    }
}

/// Every clear (and every recording start) advances the epoch, so once the
/// epoch has advanced, an epoch issued before is refused by `stash`: after
/// `n` advances, fewer than there are non-zero epochs, the epoch differs from
/// every earlier one, the initial zero included.
pub proof fn lemma_earlier_epochs_are_refused(e: u64, n: nat)
    requires
        1 <= n < u64::MAX,
    ensures
        advanced_epoch(e, n) != e,
{
    if e == 0 {
        assert(advanced_epoch(e, n) != 0);
    } else {
        lemma_advanced_epoch_cycles(e, n);
        let b = e as int;
        let m = u64::MAX as int;
        assert((b - 1 + n) % m + 1 != b) by (nonlinear_arith)
            requires
                1 <= b <= m,
                1 <= n < m,
                m == 0xffff_ffff_ffff_ffff,
        ;
    }
}

/// One generation of recording-start screen capture: the recording's epoch
/// and the frame captured for it, if any. Every recording, cancel, disarm and
/// departure from Manual mode advances the epoch, so a detached worker can
/// never fill a later turn's slot.
#[derive(Debug, Default)]
pub struct PendingImmediateCapture {
    epoch: u64,
    captured: Option<(ManualScreenToken, String)>,
}

/// The view of a captured frame.
pub open spec fn capture_view(c: Option<(ManualScreenToken, String)>) -> Option<(u64, Seq<char>)> {
    match c {
        Some((t, s)) => Some((t@, s@)),
        None => None,
    }
}

impl View for PendingImmediateCapture {
    type V = (u64, Option<(u64, Seq<char>)>);

    closed spec fn view(&self) -> (u64, Option<(u64, Seq<char>)>) {
        (self.epoch, capture_view(self.captured))
    }
}

impl PendingImmediateCapture {
    /// An empty slot at epoch zero.
    pub fn new() -> (r: Self)
        ensures
            r@ == (0u64, None::<(u64, Seq<char>)>),
    {
        PendingImmediateCapture { epoch: 0, captured: None }
    }

    /// Begin a new generation: advance the epoch and drop any frame.
    pub fn advance(&mut self) -> (r: u64)
        ensures
            r == next_epoch(old(self)@.0),
            r != old(self)@.0,
            r != 0,
            final(self)@ == (r, None::<(u64, Seq<char>)>),
    {
        self.epoch = if self.epoch == u64::MAX {
            1
        } else {
            self.epoch + 1
        };
        self.captured = None;
        self.epoch
    }

    /// Keep a frame captured for `epoch`, only while that epoch is current.
    pub fn stash(&mut self, epoch: u64, token: ManualScreenToken, data_url: String) -> (r: bool)
        ensures
            r == (epoch == old(self)@.0),
            r ==> final(self)@ == (old(self)@.0, Some((token@, data_url@))),
            !r ==> final(self)@ == old(self)@,
    {
        if self.epoch != epoch {
            return false;
        }
        self.captured = Some((token, data_url));
        true
    }

    /// Take the frame, leaving the slot empty.
    pub fn take(&mut self) -> (r: Option<(ManualScreenToken, String)>)
        ensures
            capture_view(r) == old(self)@.1,
            final(self)@ == (old(self)@.0, None::<(u64, Seq<char>)>),
    {
        self.captured.take()
    }
}

/// Whether a caller may invoke a user-controlled screen operation.
pub fn manual_screen_access_allowed(mode: AssistantScreenAccessMode) -> (r: bool)
    ensures
        r == (mode == AssistantScreenAccessMode::Manual),
{
    mode == AssistantScreenAccessMode::Manual
}

/// Whether the audit record of a screen operation may be published: only
/// for a turn that was not cancelled and whose dispatch was committed.
pub fn manual_screen_audit_can_publish(cancelled: bool, dispatch_committed: bool) -> (r: bool)
    ensures
        r == (!cancelled && dispatch_committed),
{
    !cancelled && dispatch_committed
}

/// What a Manual voice turn does about the screen.
#[derive(Debug, Clone, Copy, PartialEq, Eq, Structural)]
pub enum VoiceScreenPlan {
    /// No screen for this turn.
    NoCapture,
    /// Use the frame captured when the recording started.
    UseImmediate,
    /// Capture a fresh frame after transcription.
    CaptureOnSend,
}

/// What the voice-turn screen decision reads.
#[derive(Debug, Clone, Copy)]
pub struct VoiceScreenPlanInputs {
    pub screen_access_mode: AssistantScreenAccessMode,
    pub character_is_cat: bool,
    pub screen_armed_for_turn: bool,
    pub screen_armed_for_immediate_reuse: bool,
    pub immediate_capture_available: bool,
}

/// The screen decision of a voice turn: nothing for the Cat character,
/// outside Manual mode, or when the camera is not armed; otherwise the
/// recording-start frame when one is available and the arm covers it, and a
/// fresh capture when not. No reading of the words takes part.
pub fn voice_screen_plan(inputs: VoiceScreenPlanInputs) -> (r: VoiceScreenPlan)
    ensures
        r == if inputs.character_is_cat || inputs.screen_access_mode
            != AssistantScreenAccessMode::Manual || !inputs.screen_armed_for_turn {
            VoiceScreenPlan::NoCapture
        } else if inputs.immediate_capture_available && inputs.screen_armed_for_immediate_reuse {
            VoiceScreenPlan::UseImmediate
        } else {
            VoiceScreenPlan::CaptureOnSend
        },
{
    if inputs.character_is_cat || !manual_screen_access_allowed(inputs.screen_access_mode)
        || !inputs.screen_armed_for_turn {
        return VoiceScreenPlan::NoCapture;
    }
    if inputs.immediate_capture_available && inputs.screen_armed_for_immediate_reuse {
        VoiceScreenPlan::UseImmediate
    } else {
        VoiceScreenPlan::CaptureOnSend
    }
}

/// Whether the typed composer may attach the screen: the camera is armed,
/// the mode is Manual, and the character is not the Cat.
pub fn manual_composed_capture_allowed(
    include_screen: bool,
    screen_access_mode: AssistantScreenAccessMode,
    character_is_cat: bool,
) -> (r: bool)
    ensures
        r == (include_screen && screen_access_mode == AssistantScreenAccessMode::Manual
            && !character_is_cat),
{
    include_screen && manual_screen_access_allowed(screen_access_mode) && !character_is_cat
}

/// When an agent-decided capture is taken.
#[derive(Debug, Clone, Copy, PartialEq, Eq, Structural)]
pub enum VisionCaptureTiming {
    /// At recording start, while the user is still talking.
    Immediate,
    /// When the message is sent.
    OnSend,
}

/// Whether a recording should grab a frame up front for the model to use:
/// only when the model decides about the screen, the timing is Immediate,
/// and the character is not the Cat.
pub fn agent_capture_wanted(
    mode: AssistantScreenAccessMode,
    timing: VisionCaptureTiming,
    character_is_cat: bool,
) -> (r: bool)
    ensures
        r == (mode == AssistantScreenAccessMode::AgentDecides && timing
            == VisionCaptureTiming::Immediate && !character_is_cat),
{
    mode == AssistantScreenAccessMode::AgentDecides && timing == VisionCaptureTiming::Immediate
        && !character_is_cat
}

/// How stale a parked agent frame may be, in milliseconds.
pub const AGENT_CAPTURE_MAX_AGE_MS: u64 = 45000;

/// The size and quality budget a frame is compressed for.
#[derive(Debug, Clone, Copy, PartialEq, Eq, Structural)]
pub enum CaptureProfile {
    Generous,
    Conservative,
}

/// Whether a parked agent frame can be used: it belongs to the current
/// recording, was sized for the provider about to receive it, and is fresh.
pub fn parked_frame_is_usable(
    parked: Option<(u64, CaptureProfile)>,
    generation: u64,
    profile: CaptureProfile,
    age_ms: u64,
) -> (r: bool)
    ensures
        r == match parked {
            Some((g, p)) => g == generation && p == profile && age_ms < AGENT_CAPTURE_MAX_AGE_MS,
            None => false,
        },
{
    match parked {
        Some((g, p)) => g == generation && p == profile && age_ms < AGENT_CAPTURE_MAX_AGE_MS,
        None => false,
    }
}

} // verus!
