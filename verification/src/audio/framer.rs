//! Cutting a stream of samples into frames of a fixed length: the input
//! chunks a resampler takes and the output frames a recognizer takes.
//! Samples that do not yet fill a frame wait for the next push; a recording
//! ends by padding the last frame, and a new one starts with nothing left
//! over from the one before.

use vstd::prelude::*;

verus! {

/// The frames `s`, one after the other.
pub open spec fn joined<T>(s: Seq<Seq<T>>) -> Seq<T>
    decreases s.len(),
{
    if s.len() == 0 {
        Seq::empty()
    } else {
        joined(s.drop_last()) + s.last()
    }
}

/// The contents of some frames.
pub open spec fn frames_view<T>(v: Seq<Vec<T>>) -> Seq<Seq<T>> {
    v.map_values(|f: Vec<T>| f@)
}

/// A stream of samples cut into frames of `frame_len`.
pub struct SampleFramer<T> {
    frame_len: usize,
    pending: Vec<T>,
}

impl<T> View for SampleFramer<T> {
    /// The frame length, and the samples waiting for a frame to fill.
    type V = (nat, Seq<T>);

    closed spec fn view(&self) -> (nat, Seq<T>) {
        (self.frame_len as nat, self.pending@)
    }
}

impl<T: Copy> SampleFramer<T> {
    /// The framer's invariant: frames have a length, and fewer samples than
    /// one frame wait.
    pub open spec fn wf(&self) -> bool {
        self@.0 > 0 && self@.1.len() < self@.0
    }

    /// A framer for frames of `frame_len` samples, with nothing waiting.
    pub fn new(frame_len: usize) -> (r: Self)
        requires
            frame_len > 0,
        ensures
            r.wf(),
            r@ == (frame_len as nat, Seq::<T>::empty()),
    {
        SampleFramer { frame_len, pending: Vec::new() }
    }

    /// The length of a frame.
    pub fn frame_len(&self) -> (r: usize)
        ensures
            r == self@.0,
    {
        self.frame_len
    }

    /// How many samples wait for a frame to fill.
    pub fn pending_len(&self) -> (r: usize)
        ensures
            r == self@.1.len(),
    {
        self.pending.len()
    }

    /// Add samples: gives every frame they complete, in order; the rest
    /// wait. No sample is lost, repeated or reordered: the frames given,
    /// followed by what waits, are what waited before followed by `data`.
    pub fn push(&mut self, data: &[T]) -> (r: Vec<Vec<T>>)
        requires
            old(self).wf(),
        ensures
            final(self).wf(),
            final(self)@.0 == old(self)@.0,
            joined(frames_view(r@)) + final(self)@.1 == old(self)@.1 + data@,
            forall|i: int| 0 <= i < r@.len() ==> (#[trigger] r@[i])@.len() == old(self)@.0,
    {
        let ghost start = self.pending@;
        let mut out: Vec<Vec<T>> = Vec::new();
        let mut i: usize = 0;
        while i < data.len()
            invariant
                i <= data@.len(),
                self.frame_len > 0,
                self.frame_len == old(self)@.0,
                self.pending@.len() < self.frame_len,
                joined(frames_view(out@)) + self.pending@ == start + data@.take(i as int),
                forall|k: int| 0 <= k < out@.len() ==> (#[trigger] out@[k])@.len() == self.frame_len,
            decreases data.len() - i,
        {
            let ghost before_frames = frames_view(out@);
            let ghost before_pending = self.pending@;
            self.pending.push(data[i]);
            proof {
                assert(data@.take(i + 1) =~= data@.take(i as int).push(data@[i as int]));
                assert(joined(before_frames) + self.pending@ =~= (joined(before_frames)
                    + before_pending).push(data@[i as int]));
            }
            if self.pending.len() == self.frame_len {
                let mut frame: Vec<T> = Vec::new();
                std::mem::swap(&mut frame, &mut self.pending);
                let ghost full = frame@;
                out.push(frame);
                proof {
                    assert(frames_view(out@) =~= before_frames.push(full));
                    assert(frames_view(out@).drop_last() =~= before_frames);
                    assert(joined(frames_view(out@)) == joined(before_frames) + full);
                    assert(joined(frames_view(out@)) + self.pending@ =~= joined(before_frames)
                        + full);
                }
            }
            i += 1;
        }
        proof {
            assert(data@.take(data@.len() as int) =~= data@);
        }
        out
    }

    /// End a recording: the waiting samples, padded with `pad` to a whole
    /// frame, or nothing when none wait; nothing waits afterwards.
    pub fn finish(&mut self, pad: T) -> (r: Option<Vec<T>>)
        requires
            old(self).wf(),
        ensures
            final(self).wf(),
            final(self)@ == (old(self)@.0, Seq::<T>::empty()),
            match r {
                Some(f) => old(self)@.1.len() > 0 && f@.len() == old(self)@.0 && f@.take(
                    old(self)@.1.len() as int,
                ) == old(self)@.1 && forall|i: int|
                    old(self)@.1.len() <= i < f@.len() ==> f@[i] == pad,
                None => old(self)@.1.len() == 0,
            },
    {
        if self.pending.len() == 0 {
            return None;
        }
        let ghost before = self.pending@;
        let mut frame: Vec<T> = Vec::new();
        std::mem::swap(&mut frame, &mut self.pending);
        while frame.len() < self.frame_len
            invariant
                self.frame_len == old(self)@.0,
                before.len() <= frame@.len() <= self.frame_len,
                frame@.take(before.len() as int) == before,
                forall|i: int| before.len() <= i < frame@.len() ==> frame@[i] == pad,
            decreases self.frame_len - frame.len(),
        {
            let ghost prev = frame@;
            frame.push(pad);
            proof {
                assert(frame@.take(before.len() as int) =~= prev.take(before.len() as int));
            }
        }
        Some(frame)
    }

    /// Forget the waiting samples, so a new recording starts with nothing
    /// left over from the one before.
    pub fn reset(&mut self)
        requires
            old(self).wf(),
        ensures
            final(self).wf(),
            final(self)@ == (old(self)@.0, Seq::<T>::empty()),
    {
        self.pending = Vec::new();
    }
}

} // verus!
