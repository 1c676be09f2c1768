//! The state an assistant session keeps between turns: the screen-access
//! authorization and everything issued under it, the staged attachments,
//! the one-shot routing flags of the next dictation, and the panel's form.
//!
//! The application holds one session behind a lock; every operation that
//! depends on the screen-access mode first brings the authorization in line
//! with the mode in the settings (`synchronize`), so a mode change and the
//! invalidation of what was issued under the old mode are one step.

use vstd::prelude::*;
use crate::assistant::conversation::{files_view, FileAttachment};
use crate::assistant::screen::{
    advance_generation, capture_view, next_epoch, next_generation, parked_frame_is_usable,
    token_current, transitioned, CaptureProfile, ManualScreenAuthorization, ManualScreenToken,
    PendingImmediateCapture, AGENT_CAPTURE_MAX_AGE_MS,
};
use crate::autolearn::detect::string_views;
use crate::settings::AssistantScreenAccessMode;

verus! {

/// A frozen frame waiting for the user to pick a region, with the snip
/// generation and the Manual token it was captured under.
pub struct PendingSnip<F> {
    epoch: u64,
    manual_token: ManualScreenToken,
    /// The frame, with whatever the crop needs to know about it.
    pub frame: F,
}

impl<F> View for PendingSnip<F> {
    type V = (u64, u64, F);

    closed spec fn view(&self) -> (u64, u64, F) {
        (self.epoch, self.manual_token@, self.frame)
    }
}

impl<F> PendingSnip<F> {
    /// The token the frame was captured under.
    pub fn manual_token(&self) -> (r: ManualScreenToken)
        ensures
            r@ == self@.1,
    {
        self.manual_token
    }
}

/// The authorization of one region snip: its generation and Manual token.
#[derive(Debug, Clone, Copy)]
pub struct SnipCaptureAuthorization {
    epoch: u64,
    manual_token: ManualScreenToken,
}

impl View for SnipCaptureAuthorization {
    type V = (u64, u64);

    closed spec fn view(&self) -> (u64, u64) {
        (self.epoch, self.manual_token@)
    }
}

/// The message for a screen operation outside Manual mode.
pub const MANUAL_UNAVAILABLE: &'static str =
    "Manual screen capture is unavailable in the current screen access mode";

/// What a session holds, as a value of the specification.
pub ghost struct SessionView<F> {
    /// The screen-access mode the authorization follows, and its generation.
    pub auth: (AssistantScreenAccessMode, u64),
    /// Whether the camera is armed for Manual turns.
    pub armed: bool,
    /// The recording-start capture slot: its epoch and frame.
    pub immediate: (u64, Option<(u64, Seq<char>)>),
    /// The current snip generation.
    pub snip_epoch: u64,
    /// The pending snip: its generation, token and frame.
    pub snip: Option<(u64, u64, F)>,
    /// Staged image attachments.
    pub images: Seq<Seq<char>>,
    /// Staged file attachments.
    pub files: Seq<(Seq<char>, Seq<char>)>,
    /// The selection-capture generation of the recording in flight (0: none).
    pub selection_generation: u64,
    /// Route the current dictation to the assistant.
    pub transcribe_redirect: bool,
    /// Deliver the current dictation to the application's own field.
    pub dictate_to_field: bool,
    /// The panel is collapsed to the pill.
    pub pill_mode: bool,
    /// A drag or resize of the panel is in progress.
    pub pointer_held: bool,
    /// The recording generation of agent-decided captures.
    pub agent_generation: u64,
    /// The slot of the frame grabbed ahead of the model's decision: its
    /// generation and the profile it is sized for.
    pub agent_slot: Option<(u64, CaptureProfile)>,
}

/// The state of an assistant session.
pub struct AssistantSession<F> {
    authorization: ManualScreenAuthorization,
    screen_armed: bool,
    immediate: PendingImmediateCapture,
    snip_epoch: u64,
    pending_snip: Option<PendingSnip<F>>,
    images: Vec<String>,
    files: Vec<FileAttachment>,
    selection_generation: u64,
    transcribe_redirect: bool,
    dictate_to_field: bool,
    pill_mode: bool,
    panel_pointer_held: bool,
    agent_generation: u64,
    agent_slot: Option<(u64, CaptureProfile)>,
}

/// The view of a pending snip.
pub open spec fn snip_view<F>(s: Option<PendingSnip<F>>) -> Option<(u64, u64, F)> {
    match s {
        Some(p) => Some(p@),
        None => None,
    }
}

impl<F> View for AssistantSession<F> {
    type V = SessionView<F>;

    closed spec fn view(&self) -> SessionView<F> {
        SessionView {
            auth: self.authorization@,
            armed: self.screen_armed,
            immediate: self.immediate@,
            snip_epoch: self.snip_epoch,
            snip: snip_view(self.pending_snip),
            images: string_views(self.images@),
            files: files_view(self.files@),
            selection_generation: self.selection_generation,
            transcribe_redirect: self.transcribe_redirect,
            dictate_to_field: self.dictate_to_field,
            pill_mode: self.pill_mode,
            pointer_held: self.panel_pointer_held,
            agent_generation: self.agent_generation,
            agent_slot: self.agent_slot,
        }
    }
}

/// The session after `clear_manual_capture_state`: disarmed, no
/// recording-start frame under a new epoch, a new snip generation and no
/// pending snip; everything else as it was.
pub open spec fn manual_cleared<F>(s: SessionView<F>) -> SessionView<F> {
    SessionView {
        armed: false,
        immediate: (next_epoch(s.immediate.0), None),
        snip_epoch: next_generation(s.snip_epoch),
        snip: None,
        ..s
    }
}

/// The session after its authorization is brought in line with `mode`: no
/// change when the mode is the same; otherwise the authorization enters the
/// mode, and leaving for a mode other than Manual clears every Manual
/// capture.
pub open spec fn synchronized<F>(s: SessionView<F>, mode: AssistantScreenAccessMode) -> SessionView<
    F,
> {
    if s.auth.0 == mode {
        s
    } else if mode != AssistantScreenAccessMode::Manual {
        manual_cleared(SessionView { auth: transitioned(s.auth, mode), ..s })
    } else {
        SessionView { auth: transitioned(s.auth, mode), ..s }
    }
}

/// What beginning a recording does (see `begin_immediate_capture`): the
/// authorized token and epoch, if any, and the session afterwards.
pub open spec fn begin_capture_outcome<F>(
    s: SessionView<F>,
    mode: AssistantScreenAccessMode,
    requested: bool,
) -> (Option<(u64, u64)>, SessionView<F>) {
    let t = synchronized(s, mode);
    let e = next_epoch(t.immediate.0);
    let after = SessionView { immediate: (e, None), ..t };
    if requested && t.armed && t.auth.0 == AssistantScreenAccessMode::Manual {
        (Some((t.auth.1, e)), after)
    } else {
        (None, after)
    }
}

/// What stashing a recording-start frame does (see
/// `stash_immediate_capture`): whether it was kept, and the session
/// afterwards.
pub open spec fn stash_outcome<F>(
    s: SessionView<F>,
    mode: AssistantScreenAccessMode,
    token: u64,
    epoch: u64,
    data: Seq<char>,
) -> (bool, SessionView<F>) {
    let t = synchronized(s, mode);
    if token_current(t.auth, token) && epoch == t.immediate.0 {
        (true, SessionView { immediate: (t.immediate.0, Some((token, data))), ..t })
    } else {
        (false, t)
    }
}

/// What taking the recording-start frame does: the frame, and the session
/// afterwards.
pub open spec fn take_capture_outcome<F>(s: SessionView<F>) -> (
    Option<(u64, Seq<char>)>,
    SessionView<F>,
) {
    (s.immediate.1, SessionView { immediate: (s.immediate.0, None), ..s })
}

/// What a recording authorizes can be delivered: while the mode stays the
/// same, the frame stashed under the token and epoch that beginning the
/// recording gave is kept, and taking it gives back exactly that frame.
pub proof fn lemma_authorized_capture_round_trips<F>(
    s: SessionView<F>,
    mode: AssistantScreenAccessMode,
    data: Seq<char>,
)
    requires
        begin_capture_outcome(s, mode, true).0 is Some,
    ensures
        ({
            let (auth, after) = begin_capture_outcome(s, mode, true);
            let (token, epoch) = auth.unwrap();
            let (kept, stashed) = stash_outcome(after, mode, token, epoch, data);
            kept && take_capture_outcome(stashed).0 == Some((token, data))
        }),
{
}

/// A capture cannot outlive the mode it was authorized in: once the mode
/// has changed, a frame for a recording begun before is refused and the
/// slot stays empty.
pub proof fn lemma_capture_after_mode_change_is_refused<F>(
    s: SessionView<F>,
    mode: AssistantScreenAccessMode,
    later: AssistantScreenAccessMode,
    data: Seq<char>,
)
    requires
        begin_capture_outcome(s, mode, true).0 is Some,
        later != mode,
    ensures
        ({
            let (auth, after) = begin_capture_outcome(s, mode, true);
            let (token, epoch) = auth.unwrap();
            let (kept, stashed) = stash_outcome(after, later, token, epoch, data);
            !kept && stashed.immediate.1 is None
        }),
{
}

/// A frame of an earlier recording is refused: a stash under an epoch that
/// is not the current one changes nothing but the mode bookkeeping.
pub proof fn lemma_stale_epoch_is_refused<F>(
    s: SessionView<F>,
    mode: AssistantScreenAccessMode,
    token: u64,
    epoch: u64,
    data: Seq<char>,
)
    requires
        epoch != synchronized(s, mode).immediate.0,
    ensures
        stash_outcome(s, mode, token, epoch, data) == (false, synchronized(s, mode)),
{
}

/// Leaving Manual mode clears every Manual capture and revokes every token,
/// and keeps the staged attachments.
pub proof fn lemma_leaving_manual_clears_captures<F>(
    s: SessionView<F>,
    mode: AssistantScreenAccessMode,
    token: u64,
)
    requires
        s.auth.0 == AssistantScreenAccessMode::Manual,
        mode != AssistantScreenAccessMode::Manual,
    ensures
        ({
            let t = synchronized(s, mode);
            &&& !t.armed
            &&& t.immediate.1 is None
            &&& t.snip is None
            &&& !token_current(t.auth, token)
            &&& t.images == s.images
            &&& t.files == s.files
        }),
{
}

impl<F> AssistantSession<F> {
    /// A new session: Manual mode at generation zero, nothing armed, staged
    /// or pending, and the panel collapsed to the pill.
    pub fn new() -> (r: Self)
        ensures
            r@ == (SessionView::<F> {
                auth: (AssistantScreenAccessMode::Manual, 0u64),
                armed: false,
                immediate: (0u64, None),
                snip_epoch: 0u64,
                snip: None,
                images: Seq::empty(),
                files: Seq::empty(),
                selection_generation: 0u64,
                transcribe_redirect: false,
                dictate_to_field: false,
                pill_mode: true,
                pointer_held: false,
                agent_generation: 0u64,
                agent_slot: None,
            }),
    {
        let r = AssistantSession {
            authorization: ManualScreenAuthorization::default(),
            screen_armed: false,
            immediate: PendingImmediateCapture::new(),
            snip_epoch: 0,
            pending_snip: None,
            images: Vec::new(),
            files: Vec::new(),
            selection_generation: 0,
            transcribe_redirect: false,
            dictate_to_field: false,
            pill_mode: true,
            panel_pointer_held: false,
            agent_generation: 0,
            agent_slot: None,
        };
        proof {
            assert(string_views(r.images@) =~= Seq::<Seq<char>>::empty());
            assert(files_view(r.files@) =~= Seq::<(Seq<char>, Seq<char>)>::empty());
        }
        r
    }

    /// Whether the camera is armed for Manual turns. Reading does not clear it.
    pub fn screen_armed(&self) -> (r: bool)
        ensures
            r == self@.armed,
    {
        self.screen_armed
    }

    /// Invalidate and clear any recording-start frame.
    pub fn clear_immediate_capture(&mut self)
        ensures
            final(self)@ == (SessionView {
                immediate: (next_epoch(old(self)@.immediate.0), None),
                ..old(self)@
            }),
    {
        self.immediate.advance();
    }

    /// Take the recording-start frame, if there is one.
    pub fn take_immediate_capture(&mut self) -> (r: Option<(ManualScreenToken, String)>)
        ensures
            (capture_view(r), final(self)@) == take_capture_outcome(old(self)@),
    {
        self.immediate.take()
    }

    /// Start a new snip generation, invalidating every earlier one.
    pub fn next_snip_epoch(&mut self) -> (r: u64)
        ensures
            r == next_generation(old(self)@.snip_epoch),
            r != old(self)@.snip_epoch,
            final(self)@ == (SessionView { snip_epoch: r, ..old(self)@ }),
    {
        self.snip_epoch = advance_generation(self.snip_epoch);
        self.snip_epoch
    }

    /// Whether `epoch` is the current snip generation.
    pub fn snip_epoch_is_current(&self, epoch: u64) -> (r: bool)
        ensures
            r == (epoch == self@.snip_epoch),
    {
        self.snip_epoch == epoch
    }

    /// Drop the pending snip if it belongs to `epoch`.
    pub fn clear_pending_snip_for_epoch(&mut self, epoch: u64)
        ensures
            final(self)@ == if old(self)@.snip matches Some(p) && p.0 == epoch {
                SessionView { snip: None, ..old(self)@ }
            } else {
                old(self)@
            },
    {
        let matches = match &self.pending_snip {
            Some(snip) => snip.epoch == epoch,
            None => false,
        };
        if matches {
            self.pending_snip = None;
        }
    }

    /// Start a new snip generation and drop any pending snip.
    pub fn invalidate_region_snip_state(&mut self)
        ensures
            final(self)@ == (SessionView {
                snip_epoch: next_generation(old(self)@.snip_epoch),
                snip: None,
                ..old(self)@
            }),
    {
        self.next_snip_epoch();
        self.pending_snip = None;
    }

    /// Clear every Manual capture: disarm, drop the recording-start frame and
    /// the pending snip, and invalidate their generations. Staged
    /// attachments are kept.
    pub fn clear_manual_capture_state(&mut self)
        ensures
            final(self)@ == manual_cleared(old(self)@),
    {
        self.screen_armed = false;
        self.clear_immediate_capture();
        self.invalidate_region_snip_state();
    }

    /// Bring the authorization in line with `mode` (see `synchronized`).
    /// Returns whether the snip overlay must be torn down, which is when the
    /// session left Manual mode.
    pub fn synchronize(&mut self, mode: AssistantScreenAccessMode) -> (teardown: bool)
        ensures
            final(self)@ == synchronized(old(self)@, mode),
            teardown == (old(self)@.auth.0 != mode && mode != AssistantScreenAccessMode::Manual),
    {
        if self.authorization.mode() == mode {
            return false;
        }
        self.authorization.transition(mode);
        if mode != AssistantScreenAccessMode::Manual {
            self.clear_manual_capture_state();
            return true;
        }
        false
    }

    /// Arm or disarm the camera for Manual turns, under the current `mode`.
    /// Arming outside Manual mode is refused. Disarming invalidates every
    /// token issued so far and drops the recording-start frame.
    pub fn set_screen_armed_for_current_mode(
        &mut self,
        mode: AssistantScreenAccessMode,
        armed: bool,
    ) -> (r: Result<(), String>)
        ensures
            ({
                let s = synchronized(old(self)@, mode);
                if armed && s.auth.0 != AssistantScreenAccessMode::Manual {
                    r matches Err(e) && e@ == MANUAL_UNAVAILABLE@ && final(self)@ == s
                } else if armed {
                    r is Ok && final(self)@ == (SessionView { armed: true, ..s })
                } else {
                    r is Ok && final(self)@ == (SessionView {
                        auth: (s.auth.0, next_generation(s.auth.1)),
                        armed: false,
                        immediate: (next_epoch(s.immediate.0), None),
                        ..s
                    })
                }
            }),
    {
        self.synchronize(mode);
        if armed && self.authorization.authorize().is_none() {
            return Err(MANUAL_UNAVAILABLE.to_owned());
        }
        if !armed {
            self.authorization.revoke();
        }
        self.screen_armed = armed;
        if !armed {
            self.clear_immediate_capture();
        }
        Ok(())
    }

    /// Whether the camera is armed and the mode is Manual.
    pub fn screen_armed_for_current_mode(&mut self, mode: AssistantScreenAccessMode) -> (r: bool)
        ensures
            final(self)@ == synchronized(old(self)@, mode),
            r == (final(self)@.auth.0 == AssistantScreenAccessMode::Manual && final(self)@.armed),
    {
        self.synchronize(mode);
        self.authorization.authorize().is_some() && self.screen_armed
    }

    /// Begin a recording generation. When a capture is requested and the
    /// camera is armed in Manual mode, authorize the recording-start capture
    /// under the new epoch.
    pub fn begin_immediate_capture(
        &mut self,
        mode: AssistantScreenAccessMode,
        capture_requested: bool,
    ) -> (r: Option<(ManualScreenToken, u64)>)
        ensures
            final(self)@ == begin_capture_outcome(old(self)@, mode, capture_requested).1,
            match r {
                Some((t, e)) => begin_capture_outcome(old(self)@, mode, capture_requested).0
                    == Some((t@, e)),
                None => begin_capture_outcome(old(self)@, mode, capture_requested).0 is None,
            },
    {
        self.synchronize(mode);
        let epoch = self.immediate.advance();
        if !capture_requested || !self.screen_armed {
            return None;
        }
        match self.authorization.authorize() {
            Some(token) => Some((token, epoch)),
            None => None,
        }
    }

    /// Keep a recording-start frame, only while both its epoch and its
    /// Manual token are current.
    pub fn stash_immediate_capture(
        &mut self,
        mode: AssistantScreenAccessMode,
        token: ManualScreenToken,
        epoch: u64,
        data_url: String,
    ) -> (r: bool)
        ensures
            (r, final(self)@) == stash_outcome(old(self)@, mode, token@, epoch, data_url@),
    {
        self.synchronize(mode);
        if !self.authorization.token_is_current(token) {
            return false;
        }
        self.immediate.stash(epoch, token, data_url)
    }

    /// A token for a Manual screen operation, or an error outside Manual
    /// mode.
    pub fn authorize_manual_screen_operation(&mut self, mode: AssistantScreenAccessMode) -> (r:
        Result<ManualScreenToken, String>)
        ensures
            final(self)@ == synchronized(old(self)@, mode),
            match r {
                Ok(t) => final(self)@.auth.0 == AssistantScreenAccessMode::Manual && t@
                    == final(self)@.auth.1,
                Err(e) => final(self)@.auth.0 != AssistantScreenAccessMode::Manual && e@
                    == MANUAL_UNAVAILABLE@,
            },
    {
        self.synchronize(mode);
        match self.authorization.authorize() {
            Some(t) => Ok(t),
            None => Err(MANUAL_UNAVAILABLE.to_owned()),
        }
    }

    /// Whether a Manual token may still be used.
    pub fn manual_screen_token_is_current(
        &mut self,
        mode: AssistantScreenAccessMode,
        token: ManualScreenToken,
    ) -> (r: bool)
        ensures
            final(self)@ == synchronized(old(self)@, mode),
            r == token_current(final(self)@.auth, token@),
    {
        self.synchronize(mode);
        self.authorization.token_is_current(token)
    }

    /// The final check before a screenshot turn is sent: the authorization
    /// is brought in line with `mode`, and the screenshot may go only when
    /// the turn was not stopped and its token is still current. A Stop either
    /// lands before this (and nothing is sent) or after it (a stop of a
    /// request already on its way).
    pub fn commit_manual_screen_dispatch(
        &mut self,
        mode: AssistantScreenAccessMode,
        token: ManualScreenToken,
        cancelled: bool,
    ) -> (r: bool)
        ensures
            final(self)@ == synchronized(old(self)@, mode),
            r == (!cancelled && token_current(final(self)@.auth, token@)),
    {
        self.synchronize(mode);
        !cancelled && self.authorization.token_is_current(token)
    }

    /// Enter `mode` for good (the settings are written by the caller).
    /// Leaving Manual clears every Manual capture; the result says whether
    /// the snip overlay must be torn down.
    pub fn apply_screen_access_mode(&mut self, current: AssistantScreenAccessMode, mode: AssistantScreenAccessMode) -> (teardown: bool)
        ensures
            ({
                let s = synchronized(old(self)@, current);
                let t = SessionView { auth: transitioned(s.auth, mode), ..s };
                final(self)@ == if mode != AssistantScreenAccessMode::Manual {
                    manual_cleared(t)
                } else {
                    t
                }
            }),
            teardown == (mode != AssistantScreenAccessMode::Manual),
    {
        self.synchronize(current);
        self.authorization.transition(mode);
        if mode != AssistantScreenAccessMode::Manual {
            self.clear_manual_capture_state();
            return true;
        }
        false
    }

    /// Start a region snip: authorize it under a new snip generation and
    /// drop any older pending snip. Refused outside Manual mode.
    pub fn begin_region_snip(&mut self, mode: AssistantScreenAccessMode) -> (r: Result<
        SnipCaptureAuthorization,
        String,
    >)
        ensures
            ({
                let s = synchronized(old(self)@, mode);
                if s.auth.0 == AssistantScreenAccessMode::Manual {
                    r matches Ok(a) && a@ == (next_generation(s.snip_epoch), s.auth.1)
                        && final(self)@ == (SessionView {
                        snip_epoch: next_generation(s.snip_epoch),
                        snip: None,
                        ..s
                    })
                } else {
                    r matches Err(e) && e@ == MANUAL_UNAVAILABLE@ && final(self)@ == s
                }
            }),
    {
        self.synchronize(mode);
        let manual_token = match self.authorization.authorize() {
            Some(t) => t,
            None => {
                return Err(MANUAL_UNAVAILABLE.to_owned());
            },
        };
        let epoch = self.next_snip_epoch();
        self.pending_snip = None;
        Ok(SnipCaptureAuthorization { epoch, manual_token })
    }

    /// Keep a frozen frame for the user to crop, only while its snip
    /// generation and Manual token are current.
    pub fn stash_pending_snip(
        &mut self,
        mode: AssistantScreenAccessMode,
        authorization: SnipCaptureAuthorization,
        frame: F,
    ) -> (r: bool)
        ensures
            ({
                let s = synchronized(old(self)@, mode);
                &&& r == (authorization@.0 == s.snip_epoch && token_current(
                    s.auth,
                    authorization@.1,
                ))
                &&& final(self)@ == if r {
                    SessionView {
                        snip: Some((authorization@.0, authorization@.1, frame)),
                        ..s
                    }
                } else {
                    s
                }
            }),
    {
        self.synchronize(mode);
        if self.snip_epoch != authorization.epoch || !self.authorization.token_is_current(
            authorization.manual_token,
        ) {
            return false;
        }
        self.pending_snip = Some(
            PendingSnip { epoch: authorization.epoch, manual_token: authorization.manual_token, frame },
        );
        true
    }

    /// Take the pending snip if it belongs to the current snip generation;
    /// a stale one is dropped.
    pub fn take_pending_snip(&mut self) -> (r: Option<PendingSnip<F>>)
        ensures
            snip_view(r) == match old(self)@.snip {
                Some(p) => if p.0 == old(self)@.snip_epoch {
                    Some(p)
                } else {
                    None
                },
                None => None,
            },
            final(self)@ == (SessionView { snip: None, ..old(self)@ }),
    {
        let current = match &self.pending_snip {
            Some(snip) => snip.epoch == self.snip_epoch,
            None => false,
        };
        let taken = self.pending_snip.take();
        if current {
            taken
        } else {
            None
        }
    }

    /// Mirror the panel's staged attachments.
    pub fn set_pending_attachments(&mut self, images: Vec<String>, files: Vec<FileAttachment>)
        ensures
            final(self)@ == (SessionView {
                images: string_views(images@),
                files: files_view(files@),
                ..old(self)@
            }),
    {
        self.images = images;
        self.files = files;
    }

    /// Take the staged attachments, leaving none.
    pub fn take_pending_attachments(&mut self) -> (r: (Vec<String>, Vec<FileAttachment>))
        ensures
            string_views(r.0@) == old(self)@.images,
            files_view(r.1@) == old(self)@.files,
            final(self)@ == (SessionView {
                images: Seq::empty(),
                files: Seq::empty(),
                ..old(self)@
            }),
    {
        let mut images: Vec<String> = Vec::new();
        let mut files: Vec<FileAttachment> = Vec::new();
        std::mem::swap(&mut images, &mut self.images);
        std::mem::swap(&mut files, &mut self.files);
        proof {
            assert(string_views(self.images@) =~= Seq::<Seq<char>>::empty());
            assert(files_view(self.files@) =~= Seq::<(Seq<char>, Seq<char>)>::empty());
        }
        (images, files)
    }

    /// File the selection-capture generation of the recording in flight.
    pub fn set_selection_generation(&mut self, generation: u64)
        ensures
            final(self)@ == (SessionView { selection_generation: generation, ..old(self)@ }),
    {
        self.selection_generation = generation;
    }

    /// Collect the selection generation of the recording that just finished,
    /// leaving none; `None` when no capture was started.
    pub fn take_pending_selection(&mut self) -> (r: Option<u64>)
        ensures
            r == if old(self)@.selection_generation == 0 {
                None
            } else {
                Some(old(self)@.selection_generation)
            },
            final(self)@ == (SessionView { selection_generation: 0u64, ..old(self)@ }),
    {
        let generation = self.selection_generation;
        self.selection_generation = 0;
        if generation == 0 {
            None
        } else {
            Some(generation)
        }
    }

    /// Route the current dictation to the assistant.
    pub fn set_transcribe_redirect(&mut self)
        ensures
            final(self)@ == (SessionView { transcribe_redirect: true, ..old(self)@ }),
    {
        self.transcribe_redirect = true;
    }

    /// Stop routing the current dictation to the assistant.
    pub fn clear_transcribe_redirect(&mut self)
        ensures
            final(self)@ == (SessionView { transcribe_redirect: false, ..old(self)@ }),
    {
        self.transcribe_redirect = false;
    }

    /// Consume the routing flag: whether it was set, leaving it clear.
    pub fn take_transcribe_redirect(&mut self) -> (r: bool)
        ensures
            r == old(self)@.transcribe_redirect,
            final(self)@ == (SessionView { transcribe_redirect: false, ..old(self)@ }),
    {
        let r = self.transcribe_redirect;
        self.transcribe_redirect = false;
        r
    }

    /// Whether the dictation in progress goes to the assistant, without
    /// consuming the flag.
    pub fn is_transcribe_redirected(&self) -> (r: bool)
        ensures
            r == self@.transcribe_redirect,
    {
        self.transcribe_redirect
    }

    /// Deliver the current dictation to the application's own field.
    pub fn set_dictate_to_field(&mut self)
        ensures
            final(self)@ == (SessionView { dictate_to_field: true, ..old(self)@ }),
    {
        self.dictate_to_field = true;
    }

    /// Stop delivering the current dictation to the application's field.
    pub fn clear_dictate_to_field(&mut self)
        ensures
            final(self)@ == (SessionView { dictate_to_field: false, ..old(self)@ }),
    {
        self.dictate_to_field = false;
    }

    /// Consume the field-delivery flag: whether it was set, leaving it clear.
    pub fn take_dictate_to_field(&mut self) -> (r: bool)
        ensures
            r == old(self)@.dictate_to_field,
            final(self)@ == (SessionView { dictate_to_field: false, ..old(self)@ }),
    {
        let r = self.dictate_to_field;
        self.dictate_to_field = false;
        r
    }

    /// Whether the panel is collapsed to the pill.
    pub fn is_panel_collapsed(&self) -> (r: bool)
        ensures
            r == self@.pill_mode,
    {
        self.pill_mode
    }

    /// Collapse the panel to the pill, or expand it.
    pub fn set_panel_collapsed_state(&mut self, collapsed: bool)
        ensures
            final(self)@ == (SessionView { pill_mode: collapsed, ..old(self)@ }),
    {
        self.pill_mode = collapsed;
    }

    /// Hold the panel's input guard open for a drag or resize.
    pub fn set_panel_pointer_held(&mut self, held: bool)
        ensures
            final(self)@ == (SessionView { pointer_held: held, ..old(self)@ }),
    {
        self.panel_pointer_held = held;
    }

    /// Whether a drag or resize of the panel is in progress.
    pub fn panel_pointer_held(&self) -> (r: bool)
        ensures
            r == self@.pointer_held,
    {
        self.panel_pointer_held
    }

    /// Begin a recording for agent-decided capture: advance the generation
    /// and drop any parked frame, then, when a frame is wanted up front (see
    /// `agent_capture_wanted`), park a slot for it under the new generation.
    /// Returns the generation of the parked slot.
    pub fn begin_agent_capture(&mut self, wanted: bool, profile: CaptureProfile) -> (r: Option<u64>)
        ensures
            ({
                let g = next_generation(old(self)@.agent_generation);
                &&& final(self)@ == (SessionView {
                    agent_generation: g,
                    agent_slot: if wanted {
                        Some((g, profile))
                    } else {
                        None
                    },
                    ..old(self)@
                })
                &&& r == if wanted {
                    Some(g)
                } else {
                    None
                }
            }),
    {
        self.agent_generation = advance_generation(self.agent_generation);
        self.agent_slot = None;
        if !wanted {
            return None;
        }
        self.agent_slot = Some((self.agent_generation, profile));
        Some(self.agent_generation)
    }

    /// Whether a capture worker of `generation` may still deliver its frame.
    pub fn agent_ticket_is_current(&self, generation: u64) -> (r: bool)
        ensures
            r == (generation == self@.agent_generation),
    {
        generation == self.agent_generation
    }

    /// Make sure a capture is under way for the turn about to run: nothing
    /// when a usable frame is parked (`age_ms` old), otherwise park a slot
    /// under the current generation and return it.
    pub fn ensure_agent_capture_started(&mut self, profile: CaptureProfile, age_ms: u64) -> (r:
        Option<u64>)
        ensures
            ({
                let usable = match old(self)@.agent_slot {
                    Some((g, p)) => g == old(self)@.agent_generation && p == profile && age_ms
                        < AGENT_CAPTURE_MAX_AGE_MS,
                    None => false,
                };
                if usable {
                    r is None && final(self)@ == old(self)@
                } else {
                    r == Some(old(self)@.agent_generation) && final(self)@ == (SessionView {
                        agent_slot: Some((old(self)@.agent_generation, profile)),
                        ..old(self)@
                    })
                }
            }),
    {
        if parked_frame_is_usable(self.agent_slot, self.agent_generation, profile, age_ms) {
            return None;
        }
        self.agent_slot = Some((self.agent_generation, profile));
        Some(self.agent_generation)
    }

    /// Consume the parked slot if it belongs to the current recording, is
    /// sized for `profile` and is fresh (`age_ms` old); otherwise drop it.
    /// The slot is empty afterwards either way.
    pub fn take_agent_capture(&mut self, profile: CaptureProfile, age_ms: u64) -> (r: bool)
        ensures
            r == match old(self)@.agent_slot {
                Some((g, p)) => g == old(self)@.agent_generation && p == profile && age_ms
                    < AGENT_CAPTURE_MAX_AGE_MS,
                None => false,
            },
            final(self)@ == (SessionView { agent_slot: None, ..old(self)@ }),
    {
        let usable = parked_frame_is_usable(self.agent_slot, self.agent_generation, profile, age_ms);
        self.agent_slot = None;
        usable
    }

    /// Drop any parked frame, so a frame the model never asked for cannot
    /// outlive its turn.
    pub fn clear_agent_capture(&mut self)
        ensures
            final(self)@ == (SessionView { agent_slot: None, ..old(self)@ }),
    {
        self.agent_slot = None;
    }

    /// The storage key of the panel position for its current form: the pill
    /// and the expanded panel each remember their own place.
    pub fn position_key(&self) -> (r: &'static str)
        ensures
            r@ == if self@.pill_mode {
                PANEL_POSITION_KEY@
            } else {
                PANEL_POSITION_EXPANDED_KEY@
            },
    {
        if self.pill_mode {
            PANEL_POSITION_KEY
        } else {
            PANEL_POSITION_EXPANDED_KEY
        }
    }
}

/// Where the pill last sat.
pub const PANEL_POSITION_KEY: &'static str = "assistant_panel_position";

/// Where the expanded panel last sat.
pub const PANEL_POSITION_EXPANDED_KEY: &'static str = "assistant_panel_position_expanded";

} // verus!
