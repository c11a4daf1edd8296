//! A view on a sprite or image: geometry, layers, render-operation queue,
//! state machine and persistence status.

use vstd::prelude::*;
use vstd::view::View as _;

use crate::animation::Animation;
use crate::file::{storage_eq, same_storage, Error, FileStatus, FileStorage};
use crate::geometry::{Axis, Rect, Rgba8, ViewCoords, ViewExtent};
use crate::layer::{FrameRange, Layer, LayerId};
use crate::resource::{Direction, Edit, EditId, Snapshot, ViewResource};

verus! {

/// View identifier; `0` is reserved as "no view".
#[derive(Debug, Clone, Copy, PartialEq, Eq, Hash, Structural)]
pub struct ViewId(pub u16);

impl Default for ViewId {
    /// The reserved "no view" identifier.
    fn default() -> (r: Self)
        ensures
            r == ViewId(0u16),
    {
        ViewId(0)
    }
}

/// Current state of the view with respect to the rendering backend.
#[derive(Debug, Clone, Copy, PartialEq, Eq, Structural)]
pub enum ViewState {
    /// The view is okay. It doesn't need to be redrawn or saved.
    Okay,
    /// The view has been touched, the changes need to be stored in a
    /// snapshot. If the parameter is `Some`, the view extents were changed
    /// too.
    Dirty(Option<ViewExtent>),
    /// The view is damaged, it needs to be redrawn from a snapshot. This
    /// happens when undo/redo is used.
    Damaged(Option<ViewExtent>),
    /// A layer has been touched.
    LayerDirty(LayerId),
    /// A layer is damaged, it needs to be redrawn from a snapshot. This
    /// happens when undo/redo is used.
    LayerDamaged(LayerId),
}

/// A view operation to be carried out by the renderer.
#[derive(Debug, Clone, Copy, PartialEq, Eq, Structural)]
pub enum ViewOp {
    /// Copy an area of the view to another area.
    Blit(Rect<u32>, Rect<u32>),
    /// Clear to a color.
    Clear(Rgba8),
    /// Yank the given area into the paste buffer.
    Yank(LayerId, Rect<i32>),
    /// Flip a given area horizontally or vertically.
    Flip(LayerId, Rect<i32>, Axis),
    /// Blit the paste buffer into the given area.
    Paste(Rect<i32>),
    /// Resize the view.
    Resize(u32, u32),
    /// Paint a single pixel.
    SetPixel(LayerId, Rgba8, i32, i32),
    /// Add a layer.
    AddLayer(LayerId, FrameRange),
    /// Remove a layer.
    RemoveLayer(LayerId),
}

/// A view on a sprite or image, generic over its external resource store.
#[derive(Debug)]
pub struct View<R> {
    /// Frame width.
    pub fw: u32,
    /// Frame height.
    pub fh: u32,
    /// Identifier.
    pub id: ViewId,
    /// List of operations to carry out on the view. Cleared every frame.
    pub ops: Vec<ViewOp>,
    /// Whether the view is flipped in the X axis.
    pub flip_x: bool,
    /// Whether the view is flipped in the Y axis.
    pub flip_y: bool,
    /// Status of the file displayed by this view.
    pub file_status: FileStatus,
    /// State of the view.
    pub state: ViewState,
    /// Animation state of the sprite displayed by this view.
    pub animation: Animation<Rect<u32>>,
    /// View layers; never empty.
    pub layers: Vec<Layer>,
    /// Currently active layer.
    pub active_layer_id: LayerId,
    /// View resource.
    pub resource: R,
    /// Which view snapshot has been saved to disk, if any.
    pub saved_snapshot: Option<EditId>,
}

/// Whether two views agree on frame geometry and animation.
pub open spec fn same_geometry<R>(a: View<R>, b: View<R>) -> bool {
    &&& b.fw == a.fw
    &&& b.fh == a.fh
    &&& b.animation.index == a.animation.index
    &&& b.animation.frames@ == a.animation.frames@
}

/// Whether two views agree on the layer stack and the active layer.
pub open spec fn same_layers<R>(a: View<R>, b: View<R>) -> bool {
    &&& b.layers@ == a.layers@
    &&& b.active_layer_id == a.active_layer_id
}

/// Whether two views agree on identity, flips and resource.
pub open spec fn same_ident<R>(a: View<R>, b: View<R>) -> bool {
    &&& b.id == a.id
    &&& b.flip_x == a.flip_x
    &&& b.flip_y == a.flip_y
    &&& b.resource == a.resource
}

/// Whether two views agree on persistence status.
pub open spec fn same_persistence<R>(a: View<R>, b: View<R>) -> bool {
    &&& b.file_status == a.file_status
    &&& b.saved_snapshot == a.saved_snapshot
}

/// Whether two views agree on the pending operation queue.
pub open spec fn same_ops<R>(a: View<R>, b: View<R>) -> bool {
    b.ops@ == a.ops@
}

/// Whether two views are equal in every field but the resource.
pub open spec fn same_core<R>(a: View<R>, b: View<R>) -> bool {
    &&& same_geometry(a, b)
    &&& same_layers(a, b)
    &&& same_persistence(a, b)
    &&& same_ops(a, b)
    &&& b.id == a.id
    &&& b.flip_x == a.flip_x
    &&& b.flip_y == a.flip_y
    &&& b.state == a.state
}

impl<R> View<R> {
    /// The view extent: frame size and number of frames.
    pub open spec fn extent_spec(self) -> ViewExtent {
        ViewExtent { fw: self.fw, fh: self.fh, nframes: self.animation.frames.len() as usize }
    }

    /// Total width, as a mathematical integer.
    pub open spec fn width_spec(self) -> int {
        self.fw * self.animation.frames.len()
    }

    /// Total height (all layers stacked), as a mathematical integer.
    pub open spec fn height_spec(self) -> int {
        self.fh * self.layers.len()
    }

    /// Well-formedness: the layer stack is never empty, the active layer is
    /// a valid index, each layer's stable index is its position, the extent
    /// is valid, and the animation holds exactly the extent's frame
    /// rectangles.
    pub open spec fn wf(self) -> bool {
        &&& self.layers.len() >= 1
        &&& self.active_layer_id < self.layers.len()
        &&& forall|i: int|
            0 <= i < self.layers.len() ==> (#[trigger] self.layers[i]).index == i
        &&& self.extent_spec().valid()
        &&& self.animation.frames@ == self.extent_spec().frames_spec()
    }

    /// Create a new view. Takes a frame width and height.
    pub fn new(id: ViewId, fs: FileStatus, fw: u32, fh: u32, nframes: usize, resource: R) -> (v:
        Self)
        requires
            1 <= nframes,
            fw * nframes <= u32::MAX,
        ensures
            v.wf(),
            v.id == id,
            v.fw == fw,
            v.fh == fh,
            v.animation.frames.len() == nframes,
            v.animation.index == 0,
            v.file_status == fs,
            v.state == ViewState::Okay,
            v.ops@.len() == 0,
            v.layers@ =~= seq![Layer { frames: FrameRange::Full, index: 0 }],
            v.active_layer_id == 0,
            !v.flip_x,
            !v.flip_y,
            v.saved_snapshot == (if fs is Saved {
                Some(EditId(0u64))
            } else {
                Option::<EditId>::None
            }),
            v.resource == resource,
    {
        let saved_snapshot: Option<EditId> = match &fs {
            FileStatus::Saved(_) => Some(EditId::default()),
            _ => None,
        };
        let ext = ViewExtent::new(fw, fh, nframes);
        let frames = make_frames(ext);
        let mut layers: Vec<Layer> = Vec::new();
        layers.push(Layer::default());
        let v = View {
            id,
            fw,
            fh,
            ops: Vec::new(),
            flip_x: false,
            flip_y: false,
            file_status: fs,
            animation: Animation::new(frames),
            state: ViewState::Okay,
            layers,
            active_layer_id: 0,
            saved_snapshot,
            resource,
        };
        proof {
            assert(v.extent_spec() == ext);
        }
        v
    }

    /// Return the view extent.
    pub fn extent(&self) -> (e: ViewExtent)
        ensures
            e == self.extent_spec(),
    {
        ViewExtent::new(self.fw, self.fh, self.animation.len())
    }

    /// View width: frame width times number of frames.
    pub fn width(&self) -> (w: u32)
        requires
            self.extent_spec().valid(),
        ensures
            w == self.width_spec(),
    {
        let e = self.extent();
        e.width()
    }

    /// View height: frame height times number of layers.
    pub fn height(&self) -> (h: u32)
        requires
            self.fh * self.layers.len() <= u32::MAX,
        ensures
            h == self.height_spec(),
    {
        proof {
            if self.fh > 0 {
                assert(self.layers.len() <= u32::MAX) by (nonlinear_arith)
                    requires
                        self.fh >= 1,
                        self.fh * self.layers.len() <= u32::MAX,
                        self.layers.len() >= 0,
                    ;
            }
        }
        if self.fh == 0 {
            0
        } else {
            self.fh * (self.layers.len() as u32)
        }
    }

    /// View width and height.
    pub fn size(&self) -> (s: (u32, u32))
        requires
            self.extent_spec().valid(),
            self.fh * self.layers.len() <= u32::MAX,
        ensures
            s.0 == self.width_spec(),
            s.1 == self.height_spec(),
    {
        (self.width(), self.height())
    }

    /// Width and height of a single layer.
    pub fn layer_size(&self) -> (s: (u32, u32))
        requires
            self.extent_spec().valid(),
        ensures
            s.0 == self.width_spec(),
            s.1 == self.fh,
    {
        (self.width(), self.fh)
    }

    /// View file storage, if any.
    pub fn file_storage(&self) -> (r: Option<&FileStorage>)
        ensures
            match r {
                Some(f) => self.file_status.storage_spec() == Some(*f),
                None => self.file_status.storage_spec() is None,
            },
    {
        match &self.file_status {
            FileStatus::New(f) => Some(f),
            FileStatus::Modified(f) => Some(f),
            FileStatus::Saved(f) => Some(f),
            FileStatus::NoFile => None,
        }
    }

    /// Return the file status as text.
    pub fn status(&self) -> (s: String)
        requires
            self.file_status.wf(),
        ensures
            s@ == self.file_status.text_spec(),
    {
        self.file_status.text()
    }

    /// Return the view bounds, as an origin-anchored rectangle.
    pub fn bounds(&self) -> (r: Rect<i32>)
        requires
            self.extent_spec().valid(),
            self.width_spec() <= i32::MAX,
            self.fh * self.layers.len() <= i32::MAX,
        ensures
            r == (Rect {
                x1: 0i32,
                y1: 0i32,
                x2: self.width_spec() as i32,
                y2: self.height_spec() as i32,
            }),
    {
        Rect::<i32>::origin(self.width() as i32, self.height() as i32)
    }

    /// Return the view layer bounds, as an origin-anchored rectangle.
    pub fn layer_bounds(&self) -> (r: Rect<i32>)
        requires
            self.extent_spec().valid(),
            self.width_spec() <= i32::MAX,
            self.fh <= i32::MAX,
        ensures
            r == (Rect { x1: 0i32, y1: 0i32, x2: self.width_spec() as i32, y2: self.fh as i32 }),
    {
        Rect::<i32>::origin(self.width() as i32, self.fh as i32)
    }

    /// Flip a saved status to modified; every other status is kept.
    fn touch_status(&mut self)
        ensures
            final(self).file_status == old(self).file_status.touched(),
            final(self).state == old(self).state,
            final(self).saved_snapshot == old(self).saved_snapshot,
            same_geometry(*old(self), *final(self)),
            same_layers(*old(self), *final(self)),
            same_ops(*old(self), *final(self)),
            same_ident(*old(self), *final(self)),
    {
        let mut st = FileStatus::NoFile;
        core::mem::swap(&mut st, &mut self.file_status);
        self.file_status = match st {
            FileStatus::Saved(f) => FileStatus::Modified(f),
            other => other,
        };
    }

    /// View has been modified. Called when using the brush on the view, or
    /// resizing the view.
    pub fn touch(&mut self)
        ensures
            final(self).file_status == old(self).file_status.touched(),
            final(self).state == (if old(self).state == ViewState::Okay {
                ViewState::Dirty(None)
            } else {
                old(self).state
            }),
            final(self).saved_snapshot == old(self).saved_snapshot,
            same_geometry(*old(self), *final(self)),
            same_layers(*old(self), *final(self)),
            same_ops(*old(self), *final(self)),
            same_ident(*old(self), *final(self)),
            old(self).wf() ==> final(self).wf(),
    {
        self.touch_status();
        if self.state == ViewState::Okay {
            self.state = ViewState::Dirty(None);
        }
    }

    /// A layer has been modified: like `touch`, but recording which layer
    /// needs to be stored.
    pub fn touch_layer(&mut self)
        ensures
            final(self).file_status == old(self).file_status.touched(),
            final(self).state == (if old(self).state == ViewState::Okay {
                ViewState::LayerDirty(old(self).active_layer_id)
            } else {
                old(self).state
            }),
            final(self).saved_snapshot == old(self).saved_snapshot,
            same_geometry(*old(self), *final(self)),
            same_layers(*old(self), *final(self)),
            same_ops(*old(self), *final(self)),
            same_ident(*old(self), *final(self)),
            old(self).wf() ==> final(self).wf(),
    {
        self.touch_status();
        if self.state == ViewState::Okay {
            self.state = ViewState::LayerDirty(self.active_layer_id);
        }
    }

    /// The view should be considered damaged and needs to be restored from
    /// a snapshot. Used when undoing or redoing changes; always overwrites
    /// the state.
    pub fn damaged(&mut self, extent: Option<ViewExtent>)
        ensures
            final(self).state == ViewState::Damaged(extent),
            final(self).file_status == old(self).file_status,
            final(self).saved_snapshot == old(self).saved_snapshot,
            same_geometry(*old(self), *final(self)),
            same_layers(*old(self), *final(self)),
            same_ops(*old(self), *final(self)),
            same_ident(*old(self), *final(self)),
            old(self).wf() ==> final(self).wf(),
    {
        self.state = ViewState::Damaged(extent);
    }

    /// A layer should be considered damaged and needs to be restored from a
    /// snapshot. Used when undoing or redoing changes; always overwrites
    /// the state.
    pub fn layer_damaged(&mut self, layer: LayerId)
        ensures
            final(self).state == ViewState::LayerDamaged(layer),
            final(self).file_status == old(self).file_status,
            final(self).saved_snapshot == old(self).saved_snapshot,
            same_geometry(*old(self), *final(self)),
            same_layers(*old(self), *final(self)),
            same_ops(*old(self), *final(self)),
            same_ident(*old(self), *final(self)),
            old(self).wf() ==> final(self).wf(),
    {
        self.state = ViewState::LayerDamaged(layer);
    }

    /// Set the view state to `Okay`: the renderer calls this after fully
    /// processing the queue for a tick.
    pub fn okay(&mut self)
        ensures
            final(self).state == ViewState::Okay,
            final(self).file_status == old(self).file_status,
            final(self).saved_snapshot == old(self).saved_snapshot,
            same_geometry(*old(self), *final(self)),
            same_layers(*old(self), *final(self)),
            same_ops(*old(self), *final(self)),
            same_ident(*old(self), *final(self)),
            old(self).wf() ==> final(self).wf(),
    {
        self.state = ViewState::Okay;
    }

    /// Check whether the view is damaged.
    pub fn is_damaged(&self) -> (r: bool)
        ensures
            r == (self.state is Damaged || self.state is LayerDamaged),
    {
        matches!(self.state, ViewState::Damaged(_) | ViewState::LayerDamaged(_))
    }

    /// Check whether the view is dirty.
    pub fn is_dirty(&self) -> (r: bool)
        ensures
            r == (self.state is Dirty || self.state is LayerDirty),
    {
        matches!(self.state, ViewState::Dirty(_) | ViewState::LayerDirty(_))
    }

    /// Check whether the view is resized.
    pub fn is_resized(&self) -> (r: bool)
        ensures
            r == (self.state matches ViewState::Dirty(Some(_))),
    {
        matches!(self.state, ViewState::Dirty(Some(_)))
    }

    /// Check whether the view is okay.
    pub fn is_okay(&self) -> (r: bool)
        ensures
            r == (self.state is Okay),
    {
        self.state == ViewState::Okay
    }

    /// The geometry changed: flip a saved status to modified, record the
    /// new extent in the state, and enqueue a resize for the renderer.
    fn resized(&mut self)
        requires
            old(self).extent_spec().valid(),
        ensures
            final(self).file_status == old(self).file_status.touched(),
            final(self).state == (if old(self).state == ViewState::Okay {
                ViewState::Dirty(Some(old(self).extent_spec()))
            } else {
                old(self).state
            }),
            final(self).ops@ == old(self).ops@.push(
                ViewOp::Resize(old(self).width_spec() as u32, old(self).fh),
            ),
            final(self).saved_snapshot == old(self).saved_snapshot,
            same_geometry(*old(self), *final(self)),
            same_layers(*old(self), *final(self)),
            same_ident(*old(self), *final(self)),
            old(self).wf() ==> final(self).wf(),
    {
        self.touch_status();
        if self.state == ViewState::Okay {
            let e = self.extent();
            self.state = ViewState::Dirty(Some(e));
        }
        let w = self.width();
        let h = self.fh;
        self.ops.push(ViewOp::Resize(w, h));
    }

    /// Reset the view geometry to the given extent. The animation cursor
    /// rewinds to the first frame.
    fn reset(&mut self, extent: ViewExtent)
        requires
            extent.valid(),
        ensures
            final(self).extent_spec() == extent,
            final(self).animation.index == 0,
            final(self).animation.frames@ == extent.frames_spec(),
            final(self).file_status == old(self).file_status,
            final(self).state == old(self).state,
            final(self).saved_snapshot == old(self).saved_snapshot,
            same_layers(*old(self), *final(self)),
            same_ops(*old(self), *final(self)),
            same_ident(*old(self), *final(self)),
            old(self).layers.len() >= 1 && old(self).active_layer_id < old(self).layers.len()
                && (forall|i: int|
                0 <= i < old(self).layers.len() ==> (#[trigger] old(self).layers[i]).index == i)
                ==> final(self).wf(),
    {
        self.fw = extent.fw;
        self.fh = extent.fh;
        let frames = make_frames(extent);
        self.animation = Animation::new(frames);
    }

    /// Extend the view by one frame.
    pub fn extend(&mut self)
        requires
            old(self).wf(),
            old(self).fw * (old(self).animation.frames.len() + 1) <= u32::MAX,
        ensures
            final(self).wf(),
            final(self).extent_spec() == old(self).extent_spec().extended(),
            final(self).animation.index == old(self).animation.index,
            final(self).file_status == old(self).file_status.touched(),
            final(self).state == (if old(self).state == ViewState::Okay {
                ViewState::Dirty(Some(old(self).extent_spec().extended()))
            } else {
                old(self).state
            }),
            final(self).ops@ == old(self).ops@.push(
                ViewOp::Resize(old(self).extent_spec().extended().width_spec() as u32, old(self).fh),
            ),
            final(self).saved_snapshot == old(self).saved_snapshot,
            same_layers(*old(self), *final(self)),
            same_ident(*old(self), *final(self)),
    {
        proof {
            let n = self.animation.frames.len() as int;
            assert(self.fw * (n + 1) == self.fw * n + self.fw) by (nonlinear_arith);
        }
        let w = self.width();
        let fw = self.fw;
        let fh = self.fh;
        self.animation.frames.push(Rect::new(w, 0, w + fw, fh));
        proof {
            assert(self.animation.frames@ =~= self.extent_spec().frames_spec());
        }
        self.resized();
    }

    /// Shrink the view by one frame. The view never shrinks to zero frames:
    /// with a single frame left this is a no-op.
    pub fn shrink(&mut self)
        requires
            old(self).wf(),
        ensures
            final(self).wf(),
            final(self).extent_spec() == old(self).extent_spec().shrunk(),
            old(self).animation.frames.len() > 1 ==> {
                &&& final(self).file_status == old(self).file_status.touched()
                &&& final(self).state == (if old(self).state == ViewState::Okay {
                    ViewState::Dirty(Some(old(self).extent_spec().shrunk()))
                } else {
                    old(self).state
                })
                &&& final(self).ops@ == old(self).ops@.push(
                    ViewOp::Resize(old(self).extent_spec().shrunk().width_spec() as u32, old(self).fh),
                )
                &&& final(self).animation.index == old(self).animation.index
            },
            old(self).animation.frames.len() <= 1 ==> same_core(*old(self), *final(self)),
            final(self).saved_snapshot == old(self).saved_snapshot,
            same_layers(*old(self), *final(self)),
            same_ident(*old(self), *final(self)),
    {
        if self.animation.len() > 1 {
            let _ = self.animation.frames.pop();
            proof {
                assert(self.fw * self.animation.frames.len() <= self.fw * (
                self.animation.frames.len() + 1)) by (nonlinear_arith);
                assert(self.animation.frames@ =~= self.extent_spec().frames_spec());
            }
            self.resized();
        }
    }

    /// Extend the view by one frame, cloning the content of an existing
    /// frame, by index; `-1` clones the last frame.
    pub fn extend_clone(&mut self, index: i32)
        requires
            old(self).wf(),
            old(self).fw * (old(self).animation.frames.len() + 1) <= u32::MAX,
            index == -1 || 0 <= index && (index as int) < old(self).animation.frames.len(),
        ensures
            final(self).wf(),
            final(self).extent_spec() == old(self).extent_spec().extended(),
            final(self).file_status == old(self).file_status.touched(),
            final(self).state == (if old(self).state == ViewState::Okay {
                ViewState::Dirty(Some(old(self).extent_spec().extended()))
            } else {
                old(self).state
            }),
            final(self).ops@ == old(self).ops@.push(
                ViewOp::Resize(old(self).extent_spec().extended().width_spec() as u32, old(self).fh),
            ).push(
                ViewOp::Blit(
                    old(self).extent_spec().frame_spec(
                        if index == -1 {
                            old(self).animation.frames.len() - 1
                        } else {
                            index as int
                        },
                    ),
                    old(self).extent_spec().extended().frame_spec(
                        old(self).animation.frames.len() as int,
                    ),
                ),
            ),
            final(self).saved_snapshot == old(self).saved_snapshot,
            same_layers(*old(self), *final(self)),
            same_ident(*old(self), *final(self)),
    {
        let width = self.width();
        let fw = self.fw;
        let fh = self.fh;
        let n: usize = if index == -1 {
            self.animation.len() - 1
        } else {
            index as usize
        };
        proof {
            let len = self.animation.frames.len() as int;
            assert(self.fw * (n + 1) <= self.fw * (len + 1)) by (nonlinear_arith)
                requires
                    0 <= self.fw,
                    0 <= n + 1 <= len + 1,
                ;
            assert(self.fw * (n + 1) == self.fw * n + self.fw) by (nonlinear_arith);
            assert(self.fw * (len + 1) == self.fw * len + self.fw) by (nonlinear_arith);
            if self.fw > 0 {
                assert(n + 1 <= u32::MAX) by (nonlinear_arith)
                    requires
                        self.fw >= 1,
                        self.fw * (n + 1) <= u32::MAX,
                        0 <= n,
                    ;
            }
        }
        self.extend();
        let src = if fw == 0 {
            Rect::new(0, 0, 0, fh)
        } else {
            let n32 = n as u32;
            Rect::new(fw * n32, 0, fw * n32 + fw, fh)
        };
        let dst = Rect::new(width, 0, width + fw, fh);
        self.ops.push(ViewOp::Blit(src, dst));
    }

    /// Resize view frames to the given size, preserving the frame count.
    pub fn resize_frames(&mut self, fw: u32, fh: u32)
        requires
            old(self).wf(),
            fw * old(self).animation.frames.len() <= u32::MAX,
        ensures
            final(self).wf(),
            final(self).extent_spec() == (ViewExtent {
                fw,
                fh,
                nframes: old(self).animation.frames.len() as usize,
            }),
            final(self).animation.index == 0,
            final(self).file_status == old(self).file_status.touched(),
            final(self).state == (if old(self).state == ViewState::Okay {
                ViewState::Dirty(Some(final(self).extent_spec()))
            } else {
                old(self).state
            }),
            final(self).ops@ == old(self).ops@.push(
                ViewOp::Resize((fw * old(self).animation.frames.len()) as u32, fh),
            ),
            final(self).saved_snapshot == old(self).saved_snapshot,
            same_layers(*old(self), *final(self)),
            same_ident(*old(self), *final(self)),
    {
        let n = self.animation.len();
        self.reset(ViewExtent::new(fw, fh, n));
        self.resized();
    }

    /// Slice the view into the given number of frames. Fails, mutating
    /// nothing, unless the frame count is positive and divides the total
    /// width evenly.
    pub fn slice(&mut self, nframes: usize) -> (r: bool)
        requires
            old(self).wf(),
        ensures
            final(self).wf(),
            r == (nframes > 0 && old(self).width_spec() % (nframes as int) == 0),
            !r ==> same_core(*old(self), *final(self)),
            r ==> {
                &&& final(self).extent_spec() == (ViewExtent {
                    fw: (old(self).width_spec() / nframes as int) as u32,
                    fh: old(self).fh,
                    nframes,
                })
                &&& final(self).animation.index == 0
                &&& final(self).file_status == old(self).file_status.touched()
                &&& final(self).state == (if old(self).state == ViewState::Okay {
                    ViewState::Dirty(None)
                } else {
                    old(self).state
                })
                &&& same_ops(*old(self), *final(self))
            },
            final(self).saved_snapshot == old(self).saved_snapshot,
            same_layers(*old(self), *final(self)),
            same_ident(*old(self), *final(self)),
    {
        if nframes > 0 {
            let w = self.width();
            let wu = w as usize;
            if wu % nframes == 0 {
                let fw_new = (wu / nframes) as u32;
                proof {
                    assert((wu as int / nframes as int) * nframes as int == wu as int) by (
                    nonlinear_arith)
                        requires
                            nframes > 0,
                            wu as int % nframes as int == 0,
                    ;
                }
                self.reset(ViewExtent::new(fw_new, self.fh, nframes));
                self.touch();
                return true;
            }
        }
        false
    }

    /// Activate a layer. Returns false, mutating nothing, when the id is
    /// out of range.
    pub fn activate_layer(&mut self, l: LayerId) -> (r: bool)
        ensures
            r == (l < old(self).layers.len()),
            r ==> final(self).active_layer_id == l,
            !r ==> final(self).active_layer_id == old(self).active_layer_id,
            final(self).layers@ == old(self).layers@,
            final(self).file_status == old(self).file_status,
            final(self).state == old(self).state,
            final(self).saved_snapshot == old(self).saved_snapshot,
            same_geometry(*old(self), *final(self)),
            same_ops(*old(self), *final(self)),
            same_ident(*old(self), *final(self)),
            old(self).wf() ==> final(self).wf(),
    {
        if self.layers.len() > l {
            self.active_layer_id = l;
            return true;
        }
        false
    }

    /// Activate the next layer up, if any.
    pub fn activate_next_layer(&mut self) -> (r: bool)
        requires
            old(self).wf(),
        ensures
            final(self).wf(),
            r == (old(self).active_layer_id + 1 < old(self).layers.len()),
            r ==> final(self).active_layer_id == old(self).active_layer_id + 1,
            !r ==> final(self).active_layer_id == old(self).active_layer_id,
            final(self).layers@ == old(self).layers@,
            final(self).file_status == old(self).file_status,
            final(self).state == old(self).state,
            final(self).saved_snapshot == old(self).saved_snapshot,
            same_geometry(*old(self), *final(self)),
            same_ops(*old(self), *final(self)),
            same_ident(*old(self), *final(self)),
    {
        if self.layers.len() > self.active_layer_id + 1 {
            self.active_layer_id = self.active_layer_id + 1;
            return true;
        }
        false
    }

    /// Activate the previous layer down, if any.
    pub fn activate_prev_layer(&mut self) -> (r: bool)
        ensures
            r == (old(self).active_layer_id > 0),
            r ==> final(self).active_layer_id == old(self).active_layer_id - 1,
            !r ==> final(self).active_layer_id == old(self).active_layer_id,
            final(self).layers@ == old(self).layers@,
            final(self).file_status == old(self).file_status,
            final(self).state == old(self).state,
            final(self).saved_snapshot == old(self).saved_snapshot,
            same_geometry(*old(self), *final(self)),
            same_ops(*old(self), *final(self)),
            same_ident(*old(self), *final(self)),
            old(self).wf() ==> final(self).wf(),
    {
        if self.active_layer_id > 0 {
            self.active_layer_id = self.active_layer_id - 1;
            return true;
        }
        false
    }

    /// Get the active layer.
    pub fn active_layer(&self) -> (l: &Layer)
        requires
            self.wf(),
        ensures
            *l == self.layers[self.active_layer_id as int],
    {
        &self.layers[self.active_layer_id]
    }

    /// Push an empty layer on top; its id is the new topmost index. The
    /// active layer is unchanged.
    pub fn push_layer(&mut self) -> (id: LayerId)
        requires
            old(self).wf(),
        ensures
            final(self).wf(),
            id == old(self).layers.len(),
            final(self).layers@ == old(self).layers@.push(
                Layer { frames: FrameRange::Full, index: id as usize },
            ),
            final(self).active_layer_id == old(self).active_layer_id,
            final(self).ops@ == old(self).ops@.push(ViewOp::AddLayer(id, FrameRange::Full)),
            final(self).file_status == old(self).file_status,
            final(self).state == old(self).state,
            final(self).saved_snapshot == old(self).saved_snapshot,
            same_geometry(*old(self), *final(self)),
            same_ident(*old(self), *final(self)),
    {
        // Layer indices equal their positions, so the topmost index is the
        // last one.
        let top = self.layers[self.layers.len() - 1].index;
        let range = FrameRange::Full;
        let id = self.layers.len();
        self.layers.push(Layer::new(range, top + 1));
        self.ops.push(ViewOp::AddLayer(id, range));
        id
    }

    /// Remove a layer. Only the topmost layer may be removed, and the last
    /// remaining layer never can: both are the caller's obligation. The new
    /// topmost layer becomes active.
    pub fn remove_layer(&mut self, id: LayerId)
        requires
            old(self).wf(),
            old(self).layers.len() >= 2,
            id == old(self).layers.len() - 1,
        ensures
            final(self).wf(),
            final(self).layers@ == old(self).layers@.drop_last(),
            final(self).active_layer_id == old(self).layers.len() - 2,
            final(self).ops@ == old(self).ops@.push(ViewOp::RemoveLayer(id)),
            final(self).file_status == old(self).file_status,
            final(self).state == old(self).state,
            final(self).saved_snapshot == old(self).saved_snapshot,
            same_geometry(*old(self), *final(self)),
            same_ident(*old(self), *final(self)),
    {
        let _ = self.layers.pop();
        self.ops.push(ViewOp::RemoveLayer(id));
        self.active_layer_id = self.layers.len() - 1;
    }

    /// Clear the view to a color.
    pub fn clear(&mut self, color: Rgba8)
        ensures
            final(self).ops@ == old(self).ops@.push(ViewOp::Clear(color)),
            final(self).file_status == old(self).file_status.touched(),
            final(self).state == (if old(self).state == ViewState::Okay {
                ViewState::Dirty(None)
            } else {
                old(self).state
            }),
            final(self).saved_snapshot == old(self).saved_snapshot,
            same_geometry(*old(self), *final(self)),
            same_layers(*old(self), *final(self)),
            same_ident(*old(self), *final(self)),
            old(self).wf() ==> final(self).wf(),
    {
        self.ops.push(ViewOp::Clear(color));
        self.touch();
    }

    /// Paint a single pixel on the active layer.
    pub fn paint_color(&mut self, color: Rgba8, x: i32, y: i32)
        ensures
            final(self).ops@ == old(self).ops@.push(
                ViewOp::SetPixel(old(self).active_layer_id, color, x, y),
            ),
            final(self).file_status == old(self).file_status,
            final(self).state == old(self).state,
            final(self).saved_snapshot == old(self).saved_snapshot,
            same_geometry(*old(self), *final(self)),
            same_layers(*old(self), *final(self)),
            same_ident(*old(self), *final(self)),
            old(self).wf() ==> final(self).wf(),
    {
        let l = self.active_layer_id;
        self.ops.push(ViewOp::SetPixel(l, color, x, y));
    }

    /// Yank the given area of the active layer into the paste buffer.
    pub fn yank(&mut self, area: Rect<i32>)
        ensures
            final(self).ops@ == old(self).ops@.push(
                ViewOp::Yank(old(self).active_layer_id, area),
            ),
            final(self).file_status == old(self).file_status,
            final(self).state == old(self).state,
            final(self).saved_snapshot == old(self).saved_snapshot,
            same_geometry(*old(self), *final(self)),
            same_layers(*old(self), *final(self)),
            same_ident(*old(self), *final(self)),
            old(self).wf() ==> final(self).wf(),
    {
        let l = self.active_layer_id;
        self.ops.push(ViewOp::Yank(l, area));
    }

    /// Flip the given area of the active layer along an axis.
    pub fn flip(&mut self, area: Rect<i32>, dir: Axis)
        ensures
            final(self).ops@ == old(self).ops@.push(
                ViewOp::Flip(old(self).active_layer_id, area, dir),
            ),
            final(self).file_status == old(self).file_status,
            final(self).state == old(self).state,
            final(self).saved_snapshot == old(self).saved_snapshot,
            same_geometry(*old(self), *final(self)),
            same_layers(*old(self), *final(self)),
            same_ident(*old(self), *final(self)),
            old(self).wf() ==> final(self).wf(),
    {
        let l = self.active_layer_id;
        self.ops.push(ViewOp::Flip(l, area, dir));
    }

    /// Blit the paste buffer into the given area.
    pub fn paste(&mut self, area: Rect<i32>)
        ensures
            final(self).ops@ == old(self).ops@.push(ViewOp::Paste(area)),
            final(self).file_status == old(self).file_status.touched(),
            final(self).state == (if old(self).state == ViewState::Okay {
                ViewState::LayerDirty(old(self).active_layer_id)
            } else {
                old(self).state
            }),
            final(self).saved_snapshot == old(self).saved_snapshot,
            same_geometry(*old(self), *final(self)),
            same_layers(*old(self), *final(self)),
            same_ident(*old(self), *final(self)),
            old(self).wf() ==> final(self).wf(),
    {
        self.ops.push(ViewOp::Paste(area));
        self.touch_layer();
    }

    /// Whether the given edit is the one recorded as saved to disk.
    fn is_snapshot_saved(&self, id: EditId) -> (r: bool)
        ensures
            r == (self.saved_snapshot == Some(id)),
    {
        match self.saved_snapshot {
            Some(s) => s == id,
            None => false,
        }
    }

    /// Mark the view as saved at a given snapshot and storage.
    fn saved(&mut self, id: EditId, storage: FileStorage)
        ensures
            final(self).file_status == FileStatus::Saved(storage),
            final(self).saved_snapshot == Some(id),
            final(self).state == old(self).state,
            same_geometry(*old(self), *final(self)),
            same_layers(*old(self), *final(self)),
            same_ops(*old(self), *final(self)),
            same_ident(*old(self), *final(self)),
    {
        self.file_status = FileStatus::Saved(storage);
        self.saved_snapshot = Some(id);
    }

    /// If the restored snapshot is the one saved to disk, mark the view as
    /// saved; if the view was saved before restoring, mark it modified.
    pub fn refresh_file_status(&mut self, eid: EditId)
        ensures
            final(self).file_status == old(self).file_status.refreshed(
                old(self).saved_snapshot,
                eid,
            ),
            final(self).state == old(self).state,
            final(self).saved_snapshot == old(self).saved_snapshot,
            same_geometry(*old(self), *final(self)),
            same_layers(*old(self), *final(self)),
            same_ops(*old(self), *final(self)),
            same_ident(*old(self), *final(self)),
            old(self).wf() ==> final(self).wf(),
    {
        let mut st = FileStatus::NoFile;
        core::mem::swap(&mut st, &mut self.file_status);
        let saved_here = match &st {
            FileStatus::Modified(_) => self.is_snapshot_saved(eid),
            _ => false,
        };
        self.file_status = match st {
            FileStatus::Modified(f) => if saved_here {
                FileStatus::Saved(f)
            } else {
                FileStatus::Modified(f)
            },
            FileStatus::Saved(f) => FileStatus::Modified(f),
            other => other,
        };
    }

    /// Restore a view layer to a given snapshot.
    pub fn restore_layer(&mut self, eid: EditId, layer: LayerId)
        ensures
            final(self).state == ViewState::LayerDamaged(layer),
            final(self).file_status == old(self).file_status.refreshed(
                old(self).saved_snapshot,
                eid,
            ),
            final(self).saved_snapshot == old(self).saved_snapshot,
            same_geometry(*old(self), *final(self)),
            same_layers(*old(self), *final(self)),
            same_ops(*old(self), *final(self)),
            same_ident(*old(self), *final(self)),
            old(self).wf() ==> final(self).wf(),
    {
        self.layer_damaged(layer);
        self.refresh_file_status(eid);
    }

    /// Restore a view to a given snapshot and extent.
    pub fn restore_extent(&mut self, eid: EditId, extent: ViewExtent)
        requires
            extent.valid(),
        ensures
            final(self).state == ViewState::Damaged(Some(extent)),
            final(self).extent_spec() == extent,
            final(self).animation.index == 0,
            final(self).file_status == old(self).file_status.refreshed(
                old(self).saved_snapshot,
                eid,
            ),
            final(self).saved_snapshot == old(self).saved_snapshot,
            same_layers(*old(self), *final(self)),
            same_ops(*old(self), *final(self)),
            same_ident(*old(self), *final(self)),
            old(self).wf() ==> final(self).wf(),
    {
        self.damaged(Some(extent));
        self.reset(extent);
        self.refresh_file_status(eid);
    }

    /// Restore a view to a given snapshot.
    pub fn restore(&mut self, eid: EditId)
        ensures
            final(self).state == ViewState::Damaged(None),
            final(self).file_status == old(self).file_status.refreshed(
                old(self).saved_snapshot,
                eid,
            ),
            final(self).saved_snapshot == old(self).saved_snapshot,
            same_geometry(*old(self), *final(self)),
            same_layers(*old(self), *final(self)),
            same_ops(*old(self), *final(self)),
            same_ident(*old(self), *final(self)),
            old(self).wf() ==> final(self).wf(),
    {
        self.damaged(None);
        self.refresh_file_status(eid);
    }
}

/// Whether an edit reported by the history store fits the current view, so
/// that replaying it in the given direction is meaningful: removing a layer
/// must remove the topmost of at least two, re-adding one must reproduce
/// the recorded id, and a restored extent must be valid.
pub open spec fn edit_applicable<R>(v: View<R>, edit: Edit, dir: Direction) -> bool {
    match edit {
        Edit::LayerAdded(l) => match dir {
            Direction::Backward => v.layers.len() >= 2 && l == v.layers.len() - 1,
            Direction::Forward => l == v.layers.len(),
        },
        Edit::ViewResized(from, to) => (if dir is Backward {
            from
        } else {
            to
        }).valid(),
        _ => true,
    }
}

/// The transition `restore_edit` performs for each edit kind.
pub open spec fn restore_edit_post<R>(
    pre: View<R>,
    post: View<R>,
    eid: EditId,
    edit: Edit,
    dir: Direction,
) -> bool {
    match edit {
        Edit::Initial => same_core(pre, post),
        Edit::LayerPainted(l) => {
            &&& post.state == ViewState::LayerDamaged(l)
            &&& post.file_status == pre.file_status.refreshed(pre.saved_snapshot, eid)
            &&& post.saved_snapshot == pre.saved_snapshot
            &&& same_geometry(pre, post)
            &&& same_layers(pre, post)
            &&& same_ops(pre, post)
            &&& post.id == pre.id && post.flip_x == pre.flip_x && post.flip_y == pre.flip_y
        },
        Edit::LayerAdded(l) => {
            &&& post.file_status == pre.file_status.refreshed(pre.saved_snapshot, eid)
            &&& post.saved_snapshot == pre.saved_snapshot
            &&& post.state == pre.state
            &&& same_geometry(pre, post)
            &&& (dir is Backward ==> {
                &&& post.layers@ == pre.layers@.drop_last()
                &&& post.active_layer_id == pre.layers.len() - 2
                &&& post.ops@ == pre.ops@.push(ViewOp::RemoveLayer(l))
            })
            &&& (dir is Forward ==> {
                &&& post.layers@ == pre.layers@.push(
                    Layer { frames: FrameRange::Full, index: l as usize },
                )
                &&& post.active_layer_id == pre.active_layer_id
                &&& post.ops@ == pre.ops@.push(ViewOp::AddLayer(l, FrameRange::Full))
            })
            &&& post.id == pre.id && post.flip_x == pre.flip_x && post.flip_y == pre.flip_y
        },
        Edit::ViewResized(from, to) => {
            let ext = if dir is Backward {
                from
            } else {
                to
            };
            &&& post.state == ViewState::Damaged(Some(ext))
            &&& post.extent_spec() == ext
            &&& post.animation.index == 0
            &&& post.file_status == pre.file_status.refreshed(pre.saved_snapshot, eid)
            &&& post.saved_snapshot == pre.saved_snapshot
            &&& same_layers(pre, post)
            &&& same_ops(pre, post)
            &&& post.id == pre.id && post.flip_x == pre.flip_x && post.flip_y == pre.flip_y
        },
        Edit::ViewPainted => {
            &&& post.state == ViewState::Damaged(None)
            &&& post.file_status == pre.file_status.refreshed(pre.saved_snapshot, eid)
            &&& post.saved_snapshot == pre.saved_snapshot
            &&& same_geometry(pre, post)
            &&& same_layers(pre, post)
            &&& same_ops(pre, post)
            &&& post.id == pre.id && post.flip_x == pre.flip_x && post.flip_y == pre.flip_y
        },
    }
}

/// Whether the history holds an edit next to its cursor in the given
/// direction.
pub open spec fn restore_step_available<R: ViewResource>(pre: View<R>, dir: Direction) -> bool {
    match dir {
        Direction::Backward => 0 < pre.resource.position_spec() <= pre.resource.history_spec().len(),
        Direction::Forward => 0 <= pre.resource.position_spec() < pre.resource.history_spec().len(),
    }
}

/// The edit next to the history cursor in the given direction.
pub open spec fn restore_step_edit<R: ViewResource>(pre: View<R>, dir: Direction) -> Edit {
    match dir {
        Direction::Backward => pre.resource.history_spec()[pre.resource.position_spec() - 1],
        Direction::Forward => pre.resource.history_spec()[pre.resource.position_spec()],
    }
}

/// What `restore_snapshot` does to a view: when the history holds an edit
/// next to its cursor and that edit fits the current layer stack, exactly
/// its transition happens, reconciled against the edit id the cursor then
/// points at; otherwise nothing.
pub open spec fn restore_outcome<R: ViewResource>(
    pre: View<R>,
    post: View<R>,
    dir: Direction,
) -> bool {
    if restore_step_available(pre, dir) && edit_applicable(pre, restore_step_edit(pre, dir), dir) {
        restore_edit_post(pre, post, post.resource.current_edit_spec(), restore_step_edit(pre, dir), dir)
    } else {
        same_core(pre, post)
    }
}

/// Whether a path lies outside the document's own storage.
pub open spec fn path_is_foreign(status: FileStatus, p: Seq<char>) -> bool {
    match status.storage_spec() {
        Some(f) => !f.contains_spec(p),
        None => true,
    }
}

/// Whether a successful save to `storage` makes the document adopt it:
/// a document without a file always does; a new or modified document only
/// when the written storage is its own (saving elsewhere must not rebind
/// the document's canonical file); a saved document never changes.
pub open spec fn adopts_storage(st: FileStatus, storage: FileStorage) -> bool {
    match st {
        FileStatus::NoFile => true,
        FileStatus::New(f) => same_storage(f, storage),
        FileStatus::Modified(f) => same_storage(f, storage),
        FileStatus::Saved(_) => false,
    }
}

/// The persistence fields after a successful save to `storage` whose write
/// corresponds to the edit `eid`.
pub open spec fn save_status_post<R>(
    pre: View<R>,
    post: View<R>,
    storage: FileStorage,
    eid: EditId,
) -> bool {
    if adopts_storage(pre.file_status, storage) {
        &&& post.file_status matches FileStatus::Saved(f) && same_storage(f, storage)
        &&& post.saved_snapshot == Some(eid)
    } else {
        same_persistence(pre, post)
    }
}

impl<R> View<R> {
    /// Decide `edit_applicable` for the current view.
    fn edit_applies(&self, edit: &Edit, dir: Direction) -> (r: bool)
        ensures
            r == edit_applicable(*self, *edit, dir),
    {
        match edit {
            Edit::LayerAdded(l) => match dir {
                Direction::Backward => self.layers.len() >= 2 && *l == self.layers.len() - 1,
                Direction::Forward => *l == self.layers.len(),
            },
            Edit::ViewResized(from, to) => {
                let e = if dir == Direction::Backward {
                    from
                } else {
                    to
                };
                e.is_valid()
            },
            _ => true,
        }
    }

    /// Replay the minimal state transition for one recorded edit: repaint a
    /// layer, add or remove a layer, resize, or repaint the whole view, and
    /// reconcile the persistence status against the edit id arrived at.
    pub fn restore_edit(&mut self, eid: EditId, edit: Edit, dir: Direction)
        requires
            old(self).wf(),
            edit_applicable(*old(self), edit, dir),
        ensures
            final(self).wf(),
            restore_edit_post(*old(self), *final(self), eid, edit, dir),
            final(self).resource == old(self).resource,
    {
        match edit {
            Edit::LayerPainted(layer) => {
                self.restore_layer(eid, layer);
            },
            Edit::LayerAdded(layer) => {
                match dir {
                    Direction::Backward => {
                        self.remove_layer(layer);
                    },
                    Direction::Forward => {
                        // Re-pushing reproduces the recorded id, because
                        // only the topmost layer can ever be removed.
                        let _layer_id = self.push_layer();
                    },
                }
                self.refresh_file_status(eid);
            },
            Edit::ViewResized(from, to) => {
                let extent = if dir == Direction::Backward {
                    from
                } else {
                    to
                };
                self.restore_extent(eid, extent);
            },
            Edit::ViewPainted => {
                self.restore(eid);
            },
            Edit::Initial => {},
        }
    }
}

impl<R: ViewResource> View<R> {
    /// Restore a view snapshot: undo (backward) or redo (forward) one edit.
    /// The history store is asked for the edit next to its cursor; an edit
    /// that does not fit the current layer stack, as a corrupt history
    /// could report, is ignored.
    pub fn restore_snapshot(&mut self, dir: Direction)
        requires
            old(self).wf(),
        ensures
            final(self).wf(),
            restore_outcome(*old(self), *final(self), dir),
            final(self).resource.history_spec() == old(self).resource.history_spec(),
            dir is Backward && restore_step_available(*old(self), dir)
                ==> final(self).resource.position_spec() == old(self).resource.position_spec()
                - 1,
            dir is Forward && restore_step_available(*old(self), dir)
                ==> final(self).resource.position_spec() == old(self).resource.position_spec()
                + 1,
            !restore_step_available(*old(self), dir) ==> final(self).resource.position_spec()
                == old(self).resource.position_spec(),
    {
        let result = if dir == Direction::Backward {
            self.resource.history_prev()
        } else {
            self.resource.history_next()
        };
        match result {
            Some((eid, edit)) => {
                proof {
                    assert(restore_step_available(*old(self), dir));
                    assert(edit == restore_step_edit(*old(self), dir));
                }
                if self.edit_applies(&edit, dir) {
                    self.restore_edit(eid, edit, dir);
                    proof {
                        assert(edit_applicable(*old(self), edit, dir));
                        assert(restore_edit_post(*old(self), *self, eid, edit, dir));
                        assert(eid == self.resource.current_edit_spec());
                        assert(restore_outcome(*old(self), *self, dir));
                    }
                } else {
                    proof {
                        assert(!edit_applicable(*old(self), restore_step_edit(*old(self), dir), dir));
                        assert(same_core(*old(self), *self));
                    }
                }
            },
            None => {
                proof {
                    assert(!restore_step_available(*old(self), dir));
                }
            },
        }
    }

    /// Add a new layer with the given pixels, or fully transparent pixels.
    pub fn add_layer(&mut self, pixels: Option<Vec<Rgba8>>) -> (id: LayerId)
        requires
            old(self).wf(),
            old(self).width_spec() * old(self).fh <= usize::MAX,
        ensures
            final(self).wf(),
            id == old(self).layers.len(),
            final(self).layers@ == old(self).layers@.push(
                Layer { frames: FrameRange::Full, index: id as usize },
            ),
            final(self).active_layer_id == old(self).active_layer_id,
            final(self).ops@ == old(self).ops@.push(ViewOp::AddLayer(id, FrameRange::Full)),
            final(self).file_status == old(self).file_status,
            final(self).state == old(self).state,
            final(self).saved_snapshot == old(self).saved_snapshot,
            same_geometry(*old(self), *final(self)),
            final(self).id == old(self).id,
            final(self).flip_x == old(self).flip_x,
            final(self).flip_y == old(self).flip_y,
            final(self).resource.has_layer(id),
            final(self).resource.snapshot_spec(id).0 == (Snapshot {
                extent: old(self).extent_spec(),
            }),
            pixels matches Some(px) ==> final(self).resource.snapshot_spec(id).1 == px@,
            pixels is None ==> final(self).resource.snapshot_spec(id).1 == transparent_buffer(
                old(self).width_spec() * old(self).fh,
            ),
            final(self).resource.current_edit_spec() == old(self).resource.current_edit_spec(),
            final(self).resource.saves_spec() == old(self).resource.saves_spec(),
            forall|p: Seq<char>| #[trigger] final(self).resource.path_exists_spec(p) == old(
                self,
            ).resource.path_exists_spec(p),
            forall|l: LayerId|
                old(self).resource.has_layer(l) ==> final(self).resource.has_layer(l),
    {
        let id = self.push_layer();
        let px: Vec<Rgba8> = match pixels {
            Some(p) => p,
            None => {
                let w = self.width();
                let h = self.fh;
                transparent_pixels((w as usize) * (h as usize))
            },
        };
        let e = self.extent();
        self.resource.add_layer(id, e, px);
        id
    }

    /// Get the color at the given layer coordinate: the pixel of the
    /// store's current snapshot for that layer, exactly when the store
    /// holds the layer and the coordinate maps to an index inside its
    /// pixels.
    pub fn color_at(&self, l: LayerId, p: ViewCoords) -> (r: Option<Rgba8>)
        ensures
            ({
                let snap = self.resource.snapshot_spec(l);
                let w = snap.0.extent.width_spec();
                let idx = p.y * w + p.x;
                if self.resource.has_layer(l) && p.x < w && p.y < snap.0.extent.fh && idx
                    < snap.1.len() {
                    r == Some(snap.1[idx])
                } else {
                    r is None
                }
            }),
    {
        match self.resource.current_snapshot(l) {
            Some((snapshot, pixels)) => {
                let n = pixels.len();
                match snapshot.layer_coord_to_index(p) {
                    Some(idx) => if idx < n {
                        Some(pixels[idx])
                    } else {
                        None
                    },
                    None => None,
                }
            },
            None => None,
        }
    }

    /// Save part of a layer to disk. Overwrite protection: a path that
    /// already exists is refused unless it belongs to the document's own
    /// storage.
    fn save_layer_rect_as(&mut self, layer_id: LayerId, rect: Rect<u32>, path: &String) -> (r:
        Result<EditId, Error>)
        ensures
            final(self).file_status == old(self).file_status,
            final(self).state == old(self).state,
            final(self).saved_snapshot == old(self).saved_snapshot,
            same_geometry(*old(self), *final(self)),
            same_layers(*old(self), *final(self)),
            same_ops(*old(self), *final(self)),
            final(self).id == old(self).id,
            final(self).flip_x == old(self).flip_x,
            final(self).flip_y == old(self).flip_y,
            r matches Err(e) ==> (e is Io || e is AlreadyExists),
            r matches Err(Error::AlreadyExists(p)) ==> p@ == path@,
            (match r {
                Err(Error::AlreadyExists(_)) => true,
                _ => false,
            }) == (old(self).resource.path_exists_spec(path@) && path_is_foreign(
                old(self).file_status,
                path@,
            )),
            r matches Ok(eid) ==> eid == old(self).resource.current_edit_spec(),
            final(self).resource.current_edit_spec() == old(self).resource.current_edit_spec(),
            r is Ok ==> final(self).resource.saves_spec() == old(self).resource.saves_spec().push(
                (layer_id, rect, path@),
            ),
            r is Ok ==> final(self).resource.path_exists_spec(path@),
            r is Err ==> final(self).resource.saves_spec() == old(self).resource.saves_spec(),
            forall|p: Seq<char>|
                old(self).resource.path_exists_spec(p)
                    ==> #[trigger] final(self).resource.path_exists_spec(p),
            forall|p: Seq<char>|
                p != path@ ==> #[trigger] final(self).resource.path_exists_spec(p) == old(
                    self,
                ).resource.path_exists_spec(p),
    {
        let exists = self.resource.path_exists(path);
        let not_ours = match self.file_storage() {
            Some(f) => !f.contains(path),
            None => true,
        };
        if exists && not_ours {
            return Err(Error::AlreadyExists(path.clone()));
        }
        match self.resource.save_layer(layer_id, &rect, path) {
            Ok((e_id, _)) => Ok(e_id),
            Err(e) => Err(e),
        }
    }

    /// Save the document to the given storage.
    ///
    /// A single path takes the whole document: through the archive writer
    /// when the view has several layers, as one image otherwise. A range of
    /// paths takes one frame per path, in order, and only for a single-layer
    /// view. A single-file target that already exists and is not the
    /// document's own storage is refused before anything is written. After a
    /// successful write the persistence status adopts the storage as
    /// `save_status_post` says, recording the store's current edit id; no
    /// failure changes the view.
    pub fn save_as(&mut self, storage: &FileStorage) -> (res: Result<usize, Error>)
        requires
            old(self).wf(),
            storage.wf(),
            old(self).width_spec() * old(self).fh <= usize::MAX,
            *storage matches FileStorage::Range(paths) ==> old(self).fw * paths@.len()
                <= u32::MAX,
            *storage matches FileStorage::Range(paths) ==> paths@.len() * (old(self).fw * old(
                self,
            ).fh) <= usize::MAX,
        ensures
            final(self).wf(),
            final(self).state == old(self).state,
            same_geometry(*old(self), *final(self)),
            same_layers(*old(self), *final(self)),
            same_ops(*old(self), *final(self)),
            final(self).id == old(self).id,
            final(self).flip_x == old(self).flip_x,
            final(self).flip_y == old(self).flip_y,
            final(self).resource.current_edit_spec() == old(self).resource.current_edit_spec(),
            match res {
                Ok(written) => {
                    &&& ((*storage) is Single && old(self).layers.len() == 1 ==> written == old(
                        self,
                    ).width_spec() * old(self).fh)
                    &&& ((*storage) is Range ==> old(self).layers.len() == 1)
                    &&& (*storage matches FileStorage::Range(paths) ==> written == paths@.len() * (
                    old(self).fw * old(self).fh))
                    &&& save_status_post(
                        *old(self),
                        *final(self),
                        *storage,
                        old(self).resource.current_edit_spec(),
                    )
                },
                Err(e) => {
                    &&& same_persistence(*old(self), *final(self))
                    &&& (e is UnsupportedRange <==> (*storage) is Range && old(self).layers.len() > 1)
                    &&& (e matches Error::AlreadyExists(p) ==> path_is_foreign(
                        old(self).file_status,
                        p@,
                    ))
                },
            },
            *storage matches FileStorage::Single(path) ==> ((match res {
                Err(Error::AlreadyExists(_)) => true,
                _ => false,
            }) == (old(self).resource.path_exists_spec(path@) && path_is_foreign(
                old(self).file_status,
                path@,
            ))),
            *storage matches FileStorage::Single(path) ==> (res matches Err(
                Error::AlreadyExists(p),
            ) ==> p@ == path@),
            *storage matches FileStorage::Single(path) ==> (res is Ok && old(self).layers.len()
                == 1 ==> final(self).resource.saves_spec() == old(self).resource.saves_spec().push(
                (
                    old(self).active_layer_id,
                    Rect {
                        x1: 0u32,
                        y1: 0u32,
                        x2: old(self).width_spec() as u32,
                        y2: old(self).fh,
                    },
                    path@,
                ),
            )),
            *storage matches FileStorage::Range(paths) ==> (res is Ok ==> {
                &&& final(self).resource.saves_spec().len() == old(
                    self,
                ).resource.saves_spec().len() + paths@.len()
                &&& forall|k: int|
                    0 <= k < old(self).resource.saves_spec().len()
                        ==> #[trigger] final(self).resource.saves_spec()[k] == old(
                        self,
                    ).resource.saves_spec()[k]
                &&& forall|k: int|
                    0 <= k < paths@.len() ==> final(self).resource.saves_spec()[old(
                        self,
                    ).resource.saves_spec().len() + k] == (
                        old(self).active_layer_id,
                        old(self).extent_spec().frame_spec(k),
                        (#[trigger] paths@[k])@,
                    )
            }),
            *storage matches FileStorage::Range(paths) ==> (res is Ok ==> forall|k: int|
                0 <= k < paths@.len() ==> !(old(self).resource.path_exists_spec(
                    (#[trigger] paths@[k])@,
                ) && path_is_foreign(old(self).file_status, paths@[k]@))),
            *storage matches FileStorage::Range(paths) ==> (res is Ok ==> forall|k: int|
                0 <= k < paths@.len() ==> final(self).resource.path_exists_spec(
                    (#[trigger] paths@[k])@,
                )),
            *storage matches FileStorage::Single(path) ==> (res is Ok
                ==> final(self).resource.path_exists_spec(path@)),
            final(self).resource.saves_spec().len() >= old(self).resource.saves_spec().len(),
            forall|k: int|
                0 <= k < old(self).resource.saves_spec().len() ==> #[trigger] final(self).resource.saves_spec()[k] == old(self).resource.saves_spec()[k],
            forall|k: int|
                old(self).resource.saves_spec().len() <= k < final(self).resource.saves_spec().len() ==> !(old(self).resource.path_exists_spec(
                    (#[trigger] final(self).resource.saves_spec()[k]).2,
                ) && path_is_foreign(old(self).file_status, final(self).resource.saves_spec()[k].2)),
            forall|p: Seq<char>|
                old(self).resource.path_exists_spec(p) ==> #[trigger] final(self).resource.path_exists_spec(p),
            res matches Err(Error::UnsupportedRange) ==> final(self).resource == old(
                self,
            ).resource,
            *storage matches FileStorage::Single(path) ==> (res matches Err(
                Error::AlreadyExists(_),
            ) ==> final(self).resource == old(self).resource),
            *storage matches FileStorage::Single(path) ==> (res is Err
                ==> final(self).resource.saves_spec() == old(self).resource.saves_spec()),
    {
        let ext = self.extent();
        let nlayers = self.layers.len();
        let active_layer_id = self.active_layer_id;

        let outcome: (EditId, usize) = match storage {
            FileStorage::Single(path) => {
                // Overwrite protection holds for every single-file save,
                // archives included: an existing path outside the document's
                // own storage is refused before anything is written.
                let exists = self.resource.path_exists(path);
                let not_ours = match self.file_storage() {
                    Some(f) => !f.contains(path),
                    None => true,
                };
                if exists && not_ours {
                    return Err(Error::AlreadyExists(path.clone()));
                }
                match self.resource.create_parent_dirs(path) {
                    Ok(_) => {},
                    Err(e) => {
                        return Err(e);
                    },
                }
                if nlayers > 1 {
                    match self.resource.save_archive(path) {
                        Ok(written) => (self.resource.current_edit(), written),
                        Err(e) => {
                            return Err(e);
                        },
                    }
                } else {
                    let r = ext.rect();
                    match self.save_layer_rect_as(active_layer_id, r, path) {
                        Ok(eid) => {
                            proof {
                                assert forall|k: int|
                                    old(self).resource.saves_spec().len() <= k < self.resource.saves_spec().len() implies !(old(
                                    self,
                                ).resource.path_exists_spec(
                                    (#[trigger] self.resource.saves_spec()[k]).2,
                                ) && path_is_foreign(
                                    old(self).file_status,
                                    self.resource.saves_spec()[k].2,
                                )) by {
                                    assert(self.resource.saves_spec()[k].2 == path@);
                                }
                            }
                            let w = ext.width();
                            let h = ext.height();
                            (eid, (w as usize) * (h as usize))
                        },
                        Err(e) => {
                            return Err(e);
                        },
                    }
                }
            },
            FileStorage::Range(paths) => {
                if nlayers == 1 {
                    let mut i: usize = 0;
                    while i < paths.len()
                        invariant
                            i <= paths.len(),
                            self.wf(),
                            old(self).layers.len() == 1,
                            *storage == FileStorage::Range(*paths),
                            old(self).fw * paths@.len() <= u32::MAX,
                            paths@.len() * (old(self).fw * old(self).fh) <= usize::MAX,
                            self.file_status == old(self).file_status,
                            self.state == old(self).state,
                            self.saved_snapshot == old(self).saved_snapshot,
                            same_geometry(*old(self), *self),
                            same_layers(*old(self), *self),
                            same_ops(*old(self), *self),
                            self.id == old(self).id,
                            self.flip_x == old(self).flip_x,
                            self.flip_y == old(self).flip_y,
                            ext == old(self).extent_spec(),
                            active_layer_id == old(self).active_layer_id,
                            self.resource.current_edit_spec() == old(
                                self,
                            ).resource.current_edit_spec(),
                            self.resource.saves_spec().len() == old(
                                self,
                            ).resource.saves_spec().len() + i,
                            forall|k: int|
                                0 <= k < old(self).resource.saves_spec().len()
                                    ==> #[trigger] self.resource.saves_spec()[k] == old(
                                    self,
                                ).resource.saves_spec()[k],
                            forall|k: int|
                                0 <= k < i ==> self.resource.saves_spec()[old(
                                    self,
                                ).resource.saves_spec().len() + k] == (
                                    old(self).active_layer_id,
                                    old(self).extent_spec().frame_spec(k),
                                    (#[trigger] paths@[k])@,
                                ),
                            forall|p: Seq<char>|
                                old(self).resource.path_exists_spec(p) ==> #[trigger] self.resource.path_exists_spec(
                                    p,
                                ),
                            forall|k: int|
                                0 <= k < i ==> !(old(self).resource.path_exists_spec(
                                    (#[trigger] paths@[k])@,
                                ) && path_is_foreign(old(self).file_status, paths@[k]@)),
                            forall|k: int|
                                0 <= k < i ==> self.resource.path_exists_spec(
                                    (#[trigger] paths@[k])@,
                                ),
                        decreases paths.len() - i,
                    {
                        proof {
                            assert(ext.fw * (i + 1) <= ext.fw * paths@.len()) by (nonlinear_arith)
                                requires
                                    0 <= ext.fw,
                                    0 <= i + 1 <= paths@.len(),
                                ;
                        }
                        let f = ext.frame(i);
                        match self.save_layer_rect_as(active_layer_id, f, &paths[i]) {
                            Ok(_) => {},
                            Err(e) => {
                                proof {
                                    assert forall|k: int|
                                        old(self).resource.saves_spec().len() <= k < self.resource.saves_spec().len() implies !(old(
                                        self,
                                    ).resource.path_exists_spec(
                                        (#[trigger] self.resource.saves_spec()[k]).2,
                                    ) && path_is_foreign(
                                        old(self).file_status,
                                        self.resource.saves_spec()[k].2,
                                    )) by {
                                        let j = k - old(self).resource.saves_spec().len();
                                        assert(self.resource.saves_spec()[k].2 == paths@[j]@);
                                    }
                                }
                                return Err(e);
                            },
                        }
                        i = i + 1;
                    }
                    proof {
                        assert forall|k: int|
                            old(self).resource.saves_spec().len() <= k < self.resource.saves_spec().len() implies !(old(
                            self,
                        ).resource.path_exists_spec(
                            (#[trigger] self.resource.saves_spec()[k]).2,
                        ) && path_is_foreign(
                            old(self).file_status,
                            self.resource.saves_spec()[k].2,
                        )) by {
                            let j = k - old(self).resource.saves_spec().len();
                            assert(self.resource.saves_spec()[k].2 == paths@[j]@);
                        }
                    }
                    let eid = self.resource.current_edit();
                    proof {
                        assert(ext.fw * ext.fh <= paths@.len() * (ext.fw * ext.fh))
                            by (nonlinear_arith)
                            requires
                                paths@.len() >= 1,
                                ext.fw * ext.fh >= 0,
                            ;
                    }
                    let per_frame: usize = (ext.fw as usize) * (ext.fh as usize);
                    (eid, paths.len() * per_frame)
                } else {
                    return Err(Error::UnsupportedRange);
                }
            },
        };
        let (edit_id, written) = outcome;
        proof {
            assert(edit_id == old(self).resource.current_edit_spec());
        }

        // Mark the view as saved at a specific snapshot and with the given
        // storage, unless that would rebind the document's canonical file.
        let adopt = match &self.file_status {
            FileStatus::Modified(cur) => storage_eq(cur, storage),
            FileStatus::New(cur) => storage_eq(cur, storage),
            FileStatus::NoFile => true,
            FileStatus::Saved(_) => false,
        };
        if adopt {
            let s = storage.duplicate();
            self.saved(edit_id, s);
        }
        proof {
            assert(save_status_post(*old(self), *self, *storage, edit_id));
        }
        Ok(written)
    }
}

/// A buffer of fully transparent pixels, as the specification sees it.
pub open spec fn transparent_buffer(n: int) -> Seq<Rgba8> {
    Seq::new(n as nat, |i: int| Rgba8 { r: 0u8, g: 0u8, b: 0u8, a: 0u8 })
}

/// A buffer of fully transparent pixels.
fn transparent_pixels(n: usize) -> (v: Vec<Rgba8>)
    ensures
        v@ == transparent_buffer(n as int),
{
    let mut v: Vec<Rgba8> = Vec::new();
    let mut i: usize = 0;
    while i < n
        invariant
            i <= n,
            v@.len() == i,
            forall|j: int| 0 <= j < i ==> v@[j] == (Rgba8 { r: 0u8, g: 0u8, b: 0u8, a: 0u8 }),
        decreases n - i,
    {
        v.push(Rgba8::transparent());
        i = i + 1;
    }
    proof {
        assert(v@ =~= transparent_buffer(n as int));
    }
    v
}

/// Undo/redo round trip: for every edit kind, restoring one edit backward
/// and then forward returns the view to the extent, layer count and file
/// status it had before the pair. The view state itself may legitimately
/// end damaged rather than okay.
///
/// The reconciliation ids are the ones a consistent history hands out:
/// stepping backward reports the id of the state arrived at, stepping
/// forward the id of the state the pair started from — and that starting
/// state is the one recorded as saved exactly when the view believed
/// itself saved. Undoing a resize starts from the extent the edit resized
/// to.
pub proof fn lemma_undo_redo_round_trip<R>(
    v0: View<R>,
    v1: View<R>,
    v2: View<R>,
    eid_b: EditId,
    eid_f: EditId,
    edit: Edit,
)
    requires
        edit_applicable(v0, edit, Direction::Backward),
        restore_edit_post(v0, v1, eid_b, edit, Direction::Backward),
        restore_edit_post(v1, v2, eid_f, edit, Direction::Forward),
        v0.file_status is Saved ==> v0.saved_snapshot == Some(eid_f),
        v0.file_status is Modified ==> v0.saved_snapshot != Some(eid_f),
        edit matches Edit::ViewResized(from, to) ==> v0.extent_spec() == to,
    ensures
        v2.extent_spec() == v0.extent_spec(),
        v2.layers.len() == v0.layers.len(),
        v2.file_status == v0.file_status,
        v2.saved_snapshot == v0.saved_snapshot,
{
}

/// The undo/redo round trip composed from `restore_snapshot`'s own
/// contracts: with an applicable edit before the cursor, stepping backward
/// and then forward replays exactly that edit and returns the view to its
/// extent, layer count and file status.
///
/// The store's edit-id scheme is its own, so the reconciliation-id
/// consistency of a real history — the redo arrives at the id recorded as
/// saved exactly when the view believed itself saved — and the validity of
/// a resize edit's target stay as hypotheses.
pub proof fn lemma_restore_snapshot_round_trip<R: ViewResource>(
    v0: View<R>,
    v1: View<R>,
    v2: View<R>,
)
    requires
        restore_step_available(v0, Direction::Backward),
        edit_applicable(v0, restore_step_edit(v0, Direction::Backward), Direction::Backward),
        restore_outcome(v0, v1, Direction::Backward),
        v1.resource.history_spec() == v0.resource.history_spec(),
        v1.resource.position_spec() == v0.resource.position_spec() - 1,
        edit_applicable(v1, restore_step_edit(v1, Direction::Forward), Direction::Forward),
        restore_outcome(v1, v2, Direction::Forward),
        v0.file_status is Saved ==> v0.saved_snapshot == Some(v2.resource.current_edit_spec()),
        v0.file_status is Modified ==> v0.saved_snapshot != Some(v2.resource.current_edit_spec()),
        restore_step_edit(v0, Direction::Backward) matches Edit::ViewResized(_, to)
            ==> v0.extent_spec() == to,
    ensures
        v2.extent_spec() == v0.extent_spec(),
        v2.layers.len() == v0.layers.len(),
        v2.file_status == v0.file_status,
        v2.saved_snapshot == v0.saved_snapshot,
{
    let edit = restore_step_edit(v0, Direction::Backward);
    assert(restore_step_available(v1, Direction::Forward));
    assert(restore_step_edit(v1, Direction::Forward) == edit);
    lemma_undo_redo_round_trip(
        v0,
        v1,
        v2,
        v1.resource.current_edit_spec(),
        v2.resource.current_edit_spec(),
        edit,
    );
}

/// Saving a document that never had a saved file (no file at all, or new
/// with the storage being written) adopts the written storage and records
/// the edit id as the saved snapshot; a subsequent touch marks the document
/// modified against that same storage, keeping the recorded snapshot.
pub proof fn lemma_save_then_touch<R>(
    v0: View<R>,
    v1: View<R>,
    v2: View<R>,
    storage: FileStorage,
    eid: EditId,
)
    requires
        v0.file_status is NoFile || (v0.file_status matches FileStatus::New(f) && same_storage(
            f,
            storage,
        )),
        save_status_post(v0, v1, storage, eid),
        v2.file_status == v1.file_status.touched(),
        v2.saved_snapshot == v1.saved_snapshot,
    ensures
        v1.file_status matches FileStatus::Saved(f) && same_storage(f, storage),
        v1.saved_snapshot == Some(eid),
        v2.file_status matches FileStatus::Modified(f) && same_storage(f, storage),
        v2.saved_snapshot == Some(eid),
{
}

/// Build the frame rectangles of an extent, in order.
fn make_frames(extent: ViewExtent) -> (frames: Vec<Rect<u32>>)
    requires
        extent.fw * extent.nframes <= u32::MAX,
    ensures
        frames@ == extent.frames_spec(),
{
    let mut frames: Vec<Rect<u32>> = Vec::new();
    let mut i: usize = 0;
    while i < extent.nframes
        invariant
            i <= extent.nframes,
            extent.fw * extent.nframes <= u32::MAX,
            frames@.len() == i,
            forall|j: int| 0 <= j < i ==> frames@[j] == extent.frame_spec(j),
        decreases extent.nframes - i,
    {
        proof {
            assert(extent.fw * (i + 1) <= extent.fw * extent.nframes) by (nonlinear_arith)
                requires
                    0 <= extent.fw,
                    0 <= i + 1 <= extent.nframes,
                ;
        }
        let f = extent.frame(i);
        frames.push(f);
        i = i + 1;
    }
    proof {
        assert(frames@ =~= extent.frames_spec());
    }
    frames
}

} // verus!
