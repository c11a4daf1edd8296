//! Layers: stacked raster planes within a view, addressed by a stable
//! positional id.

use vstd::prelude::*;

verus! {

/// A layer identifier: the layer's ordinal index within its view.
pub type LayerId = usize;

/// The frame coverage that a layer declares.
#[derive(Debug, Clone, Copy, PartialEq, Eq, Structural)]
pub enum FrameRange {
    /// The layer spans every frame of the view.
    Full,
}

/// One stacked raster plane within a view.
#[derive(Debug, Clone, Copy, PartialEq, Eq, Structural)]
pub struct Layer {
    /// The frames this layer covers.
    pub frames: FrameRange,
    /// Stable index of the layer within its view.
    pub index: usize,
}

impl Layer {
    pub fn new(frames: FrameRange, index: usize) -> (l: Self)
        ensures
            l == (Layer { frames, index }),
    {
        Layer { frames, index }
    }
}

impl Default for Layer {
    /// The bottom layer of a fresh view.
    fn default() -> (l: Self)
        ensures
            l == (Layer { frames: FrameRange::Full, index: 0 }),
    {
        Layer { frames: FrameRange::Full, index: 0 }
    }
}

} // verus!
