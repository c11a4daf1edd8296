//! Geometry of a view: rectangles, coordinates and the view extent.

use vstd::prelude::*;

verus! {

/// An axis-aligned rectangle, given by its lower-left and upper-right corners.
#[derive(Debug, Clone, Copy, PartialEq, Eq, Structural)]
pub struct Rect<T> {
    pub x1: T,
    pub y1: T,
    pub x2: T,
    pub y2: T,
}

impl<T> Rect<T> {
    pub fn new(x1: T, y1: T, x2: T, y2: T) -> (r: Self)
        ensures
            r == (Rect { x1, y1, x2, y2 }),
    {
        Rect { x1, y1, x2, y2 }
    }
}

impl Rect<u32> {
    /// Rectangle of the given size, anchored at the origin.
    pub fn origin(w: u32, h: u32) -> (r: Self)
        ensures
            r == (Rect { x1: 0u32, y1: 0u32, x2: w, y2: h }),
    {
        Rect { x1: 0, y1: 0, x2: w, y2: h }
    }
}

impl Rect<i32> {
    /// Rectangle of the given size, anchored at the origin.
    pub fn origin(w: i32, h: i32) -> (r: Self)
        ensures
            r == (Rect { x1: 0i32, y1: 0i32, x2: w, y2: h }),
    {
        Rect { x1: 0, y1: 0, x2: w, y2: h }
    }
}

/// Coordinates relative to the bottom left corner of a view.
#[derive(Debug, Clone, Copy, PartialEq, Eq, Structural)]
pub struct ViewCoords {
    pub x: u32,
    pub y: u32,
}

impl ViewCoords {
    pub fn new(x: u32, y: u32) -> (p: Self)
        ensures
            p == (ViewCoords { x, y }),
    {
        ViewCoords { x, y }
    }
}

/// An RGBA color with one byte per channel.
#[derive(Debug, Clone, Copy, PartialEq, Eq, Structural)]
pub struct Rgba8 {
    pub r: u8,
    pub g: u8,
    pub b: u8,
    pub a: u8,
}

impl Rgba8 {
    pub fn new(r: u8, g: u8, b: u8, a: u8) -> (c: Self)
        ensures
            c == (Rgba8 { r, g, b, a }),
    {
        Rgba8 { r, g, b, a }
    }

    /// The fully transparent color.
    pub fn transparent() -> (c: Self)
        ensures
            c == (Rgba8 { r: 0u8, g: 0u8, b: 0u8, a: 0u8 }),
    {
        Rgba8 { r: 0, g: 0, b: 0, a: 0 }
    }
}

/// Axis along which an area can be flipped.
#[derive(Debug, Clone, Copy, PartialEq, Eq, Structural)]
pub enum Axis {
    Horizontal,
    Vertical,
}

/// View extent information: frame size and number of frames.
///
/// A view lays its frames out horizontally, so its total width is
/// `fw * nframes` and its total height is `fh`.
#[derive(Debug, Clone, Copy, PartialEq, Eq, Structural)]
pub struct ViewExtent {
    /// Frame width.
    pub fw: u32,
    /// Frame height.
    pub fh: u32,
    /// Number of frames.
    pub nframes: usize,
}

impl ViewExtent {
    /// An extent is valid when it has at least one frame and its total
    /// width fits in a `u32`.
    pub open spec fn valid(self) -> bool {
        &&& self.nframes >= 1
        &&& self.fw * self.nframes <= u32::MAX
    }

    /// Total width, as a mathematical integer.
    pub open spec fn width_spec(self) -> int {
        self.fw * self.nframes
    }

    /// The rectangle of frame `n`.
    pub open spec fn frame_spec(self, n: int) -> Rect<u32> {
        Rect {
            x1: (self.fw * n) as u32,
            y1: 0u32,
            x2: (self.fw * n + self.fw) as u32,
            y2: self.fh,
        }
    }

    /// The frame rectangles of all frames, in order.
    pub open spec fn frames_spec(self) -> Seq<Rect<u32>> {
        Seq::new(self.nframes as nat, |i: int| self.frame_spec(i))
    }

    /// The extent with one frame appended.
    pub open spec fn extended(self) -> ViewExtent {
        ViewExtent { nframes: (self.nframes + 1) as usize, ..self }
    }

    /// The extent with the last frame removed, unless only one frame
    /// remains.
    pub open spec fn shrunk(self) -> ViewExtent {
        if self.nframes > 1 {
            ViewExtent { nframes: (self.nframes - 1) as usize, ..self }
        } else {
            self
        }
    }

    pub fn new(fw: u32, fh: u32, nframes: usize) -> (e: Self)
        ensures
            e == (ViewExtent { fw, fh, nframes }),
    {
        ViewExtent { fw, fh, nframes }
    }

    /// Decide validity of the extent.
    pub fn is_valid(&self) -> (r: bool)
        ensures
            r == self.valid(),
    {
        let fw: u128 = self.fw as u128;
        let nf: u128 = self.nframes as u128;
        proof {
            assert(fw * nf <= 0xffff_ffff * 0xffff_ffff_ffff_ffff) by (nonlinear_arith)
                requires
                    fw <= 0xffff_ffff,
                    nf <= 0xffff_ffff_ffff_ffff,
                ;
        }
        self.nframes >= 1 && fw * nf <= u32::MAX as u128
    }

    /// Extent total width.
    pub fn width(&self) -> (w: u32)
        requires
            self.fw * self.nframes <= u32::MAX,
        ensures
            w == self.width_spec(),
    {
        proof {
            if self.fw > 0 {
                assert(self.nframes <= u32::MAX) by (nonlinear_arith)
                    requires
                        self.fw >= 1,
                        self.fw * self.nframes <= u32::MAX,
                        self.nframes >= 0,
                    ;
            }
        }
        if self.fw == 0 {
            0
        } else {
            self.fw * (self.nframes as u32)
        }
    }

    /// Extent total height.
    pub fn height(&self) -> (h: u32)
        ensures
            h == self.fh,
    {
        self.fh
    }

    /// Rect containing the whole extent.
    pub fn rect(&self) -> (r: Rect<u32>)
        requires
            self.fw * self.nframes <= u32::MAX,
        ensures
            r == (Rect { x1: 0u32, y1: 0u32, x2: self.width_spec() as u32, y2: self.fh }),
    {
        let w = self.width();
        Rect::<u32>::origin(w, self.fh)
    }

    /// Rect containing a single frame.
    pub fn frame(&self, n: usize) -> (r: Rect<u32>)
        requires
            self.fw * (n + 1) <= u32::MAX,
        ensures
            r == self.frame_spec(n as int),
    {
        proof {
            if self.fw > 0 {
                assert(n + 1 <= u32::MAX) by (nonlinear_arith)
                    requires
                        self.fw >= 1,
                        self.fw * (n + 1) <= u32::MAX,
                        n >= 0,
                    ;
                assert(self.fw * (n + 1) == self.fw * n + self.fw) by (nonlinear_arith);
            }
        }
        if self.fw == 0 {
            Rect::new(0, 0, 0, self.fh)
        } else {
            let n32 = n as u32;
            Rect::new(self.fw * n32, 0, self.fw * n32 + self.fw, self.fh)
        }
    }

    /// Compute the frame index, given a point inside the extent.
    pub fn to_frame(self, p: ViewCoords) -> (n: usize)
        requires
            self.fw > 0,
        ensures
            n == p.x as int / self.fw as int,
    {
        (p.x / self.fw) as usize
    }
}

/// Extending an extent by one frame and then shrinking it restores the
/// original extent (and with it the frame count and total width).
pub proof fn lemma_extend_then_shrink(e: ViewExtent)
    requires
        1 <= e.nframes < usize::MAX,
    ensures
        e.extended().shrunk() == e,
{
}

} // verus!
