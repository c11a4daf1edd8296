//! Animation cursor: a circular index over a sequence of frames.

use vstd::prelude::*;

verus! {

/// A non-empty ordered sequence of frames plus a current index.
///
/// Stepping is circular and independent of editing.
#[derive(Debug)]
pub struct Animation<T> {
    pub index: usize,
    pub frames: Vec<T>,
}

impl<T> Animation<T> {
    /// A well-formed animation has at least one frame and its index in
    /// bounds.
    pub open spec fn wf(self) -> bool {
        &&& self.frames.len() >= 1
        &&& self.index < self.frames.len()
    }

    pub fn new(frames: Vec<T>) -> (a: Self)
        ensures
            a.index == 0,
            a.frames == frames,
    {
        Self { index: 0, frames }
    }

    pub fn len(&self) -> (n: usize)
        ensures
            n == self.frames.len(),
    {
        self.frames.len()
    }

    /// Advance the cursor by one frame, wrapping around at the end.
    pub fn step(&mut self)
        requires
            old(self).wf(),
        ensures
            final(self).wf(),
            final(self).frames == old(self).frames,
            final(self).index == (old(self).index + 1) % (old(self).frames.len() as int),
    {
        self.index = (self.index + 1) % self.frames.len();
    }

    /// The frame under the cursor.
    pub fn val(&self) -> (v: &T)
        requires
            self.wf(),
        ensures
            *v == self.frames[self.index as int],
    {
        &self.frames[self.index]
    }
}

} // verus!
