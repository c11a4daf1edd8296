//! The external snapshot/history store behind a view, as an interface, and
//! an in-memory store implementing it.

use vstd::prelude::*;

use crate::file::Error;
use crate::geometry::{Rect, Rgba8, ViewCoords, ViewExtent};
use crate::layer::LayerId;

verus! {

/// Identifier of one recorded edit in the history store.
#[derive(Debug, Clone, Copy, PartialEq, Eq, Hash, Structural)]
pub struct EditId(pub u64);

impl Default for EditId {
    /// The identifier of the initial, empty history state.
    fn default() -> (r: Self)
        ensures
            r == EditId(0u64),
    {
        EditId(0)
    }
}

/// Direction of a history step.
#[derive(Debug, Clone, Copy, PartialEq, Eq, Structural)]
pub enum Direction {
    Backward,
    Forward,
}

/// The kind of one recorded edit, as the history store reports it.
#[derive(Debug, Clone, Copy, PartialEq, Eq, Structural)]
pub enum Edit {
    /// The sentinel at the start of the history; restoring it is a no-op.
    Initial,
    /// A layer's pixels were painted.
    LayerPainted(LayerId),
    /// A layer was added.
    LayerAdded(LayerId),
    /// The view was resized from the first extent to the second.
    ViewResized(ViewExtent, ViewExtent),
    /// The whole view's pixels were painted.
    ViewPainted,
}

/// Metadata of an immutable capture of a layer's content.
#[derive(Debug, Clone, Copy, PartialEq, Eq, Structural)]
pub struct Snapshot {
    /// The extent of the captured content.
    pub extent: ViewExtent,
}

impl Snapshot {
    /// Translate a layer coordinate into an index into the snapshot's
    /// pixel buffer (row-major, bottom row first).
    pub fn layer_coord_to_index(&self, p: ViewCoords) -> (r: Option<usize>)
        ensures
            match r {
                Some(i) => {
                    &&& p.x < self.extent.width_spec()
                    &&& p.y < self.extent.fh
                    &&& i == p.y * self.extent.width_spec() + p.x
                },
                None => !{
                    &&& p.x < self.extent.width_spec()
                    &&& p.y < self.extent.fh
                    &&& p.y * self.extent.width_spec() + p.x <= usize::MAX
                },
            },
    {
        let fw: u128 = self.extent.fw as u128;
        let nf: u128 = self.extent.nframes as u128;
        proof {
            assert(fw * nf <= 0xffff_ffff * 0xffff_ffff_ffff_ffff) by (nonlinear_arith)
                requires
                    fw <= 0xffff_ffff,
                    nf <= 0xffff_ffff_ffff_ffff,
                ;
        }
        let w: u128 = fw * nf;
        let x: u128 = p.x as u128;
        let y: u128 = p.y as u128;
        if x < w && p.y < self.extent.fh {
            proof {
                assert(y * w + x <= u128::MAX) by (nonlinear_arith)
                    requires
                        y <= 0xffff_ffff,
                        w <= 0xffff_ffff * 0xffff_ffff_ffff_ffff,
                        x < w,
                    ;
            }
            let i: u128 = y * w + x;
            if i <= usize::MAX as u128 {
                Some(i as usize)
            } else {
                None
            }
        } else {
            None
        }
    }
}

/// The per-view external resource: snapshot storage, edit history and
/// persistence backend. The view's state machine depends only on this
/// interface, never on a concrete store.
///
/// The spec functions with a body are the interface's default model — an
/// empty disk, the initial edit, no completed writes — which stores with
/// real state override.
pub trait ViewResource: Sized {
    /// Whether the store holds a layer with the given id.
    spec fn has_layer(&self, layer: LayerId) -> bool;

    /// Whether the disk behind the store holds a file at the given path.
    open spec fn path_exists_spec(&self, path: Seq<char>) -> bool {
        false
    }

    /// The edit id of the state the history cursor points at.
    open spec fn current_edit_spec(&self) -> EditId {
        EditId(0u64)
    }

    /// The completed layer writes, oldest first: layer, rectangle, path.
    open spec fn saves_spec(&self) -> Seq<(LayerId, Rect<u32>, Seq<char>)> {
        Seq::empty()
    }

    /// The current snapshot the store holds for a layer: its metadata and
    /// its pixels.
    open spec fn snapshot_spec(&self, layer: LayerId) -> (Snapshot, Seq<Rgba8>) {
        (Snapshot { extent: ViewExtent { fw: 0u32, fh: 0u32, nframes: 0usize } }, Seq::empty())
    }

    /// The edits recorded in the history, oldest first.
    open spec fn history_spec(&self) -> Seq<Edit> {
        Seq::empty()
    }

    /// How many recorded edits are currently applied: the cursor's
    /// position within the history.
    open spec fn position_spec(&self) -> int {
        0
    }

    /// Declare a new layer covering the given extent, with its initial
    /// pixels, which become the layer's current snapshot (re-registering an
    /// id replaces that layer's snapshot). The disk, the history and the
    /// write log are untouched.
    fn add_layer(&mut self, layer: LayerId, extent: ViewExtent, pixels: Vec<Rgba8>)
        ensures
            final(self).has_layer(layer),
            final(self).snapshot_spec(layer) == (Snapshot { extent }, pixels@),
            forall|l: LayerId| old(self).has_layer(l) ==> final(self).has_layer(l),
            final(self).current_edit_spec() == old(self).current_edit_spec(),
            final(self).saves_spec() == old(self).saves_spec(),
            forall|p: Seq<char>| #[trigger] final(self).path_exists_spec(p) == old(
                self,
            ).path_exists_spec(p),
    ;

    /// The current snapshot of the given layer, with its pixels.
    fn current_snapshot(&self, layer: LayerId) -> (r: Option<(Snapshot, Vec<Rgba8>)>)
        ensures
            r is Some <==> self.has_layer(layer),
            r matches Some(x) ==> x.0 == self.snapshot_spec(layer).0 && x.1@ == self.snapshot_spec(
                layer,
            ).1,
    ;

    /// The current snapshot of the given layer, restricted to a rectangle.
    fn snapshot_rect(&self, layer: LayerId, rect: &Rect<i32>) -> (r: Option<
        (Snapshot, Vec<Rgba8>),
    >)
        requires
            self.has_layer(layer),
        ensures
            r matches Some(x) ==> x.0 == self.snapshot_spec(layer).0,
    ;

    /// Step the history cursor backward, returning the undone edit and the
    /// id of the state arrived at: exactly when an edit precedes the
    /// cursor, that edit comes back and the cursor moves onto it.
    fn history_prev(&mut self) -> (r: Option<(EditId, Edit)>)
        ensures
            r is Some <==> 0 < old(self).position_spec() <= old(self).history_spec().len(),
            r matches Some((eid, edit)) ==> {
                &&& edit == old(self).history_spec()[old(self).position_spec() - 1]
                &&& final(self).position_spec() == old(self).position_spec() - 1
                &&& eid == final(self).current_edit_spec()
            },
            final(self).history_spec() == old(self).history_spec(),
            r is None ==> {
                &&& final(self).position_spec() == old(self).position_spec()
                &&& final(self).current_edit_spec() == old(self).current_edit_spec()
            },
    ;

    /// Step the history cursor forward, returning the replayed edit and the
    /// id of the state arrived at: exactly when an edit follows the cursor,
    /// that edit comes back and the cursor moves past it.
    fn history_next(&mut self) -> (r: Option<(EditId, Edit)>)
        ensures
            r is Some <==> 0 <= old(self).position_spec() < old(self).history_spec().len(),
            r matches Some((eid, edit)) ==> {
                &&& edit == old(self).history_spec()[old(self).position_spec()]
                &&& final(self).position_spec() == old(self).position_spec() + 1
                &&& eid == final(self).current_edit_spec()
            },
            final(self).history_spec() == old(self).history_spec(),
            r is None ==> {
                &&& final(self).position_spec() == old(self).position_spec()
                &&& final(self).current_edit_spec() == old(self).current_edit_spec()
            },
    ;

    /// The edit id of the state the cursor currently points at.
    fn current_edit(&self) -> (r: EditId)
        ensures
            r == self.current_edit_spec(),
    ;

    /// Create the parent directories of the given path, as needed for a
    /// single-file save. Creating directories creates no file, moves no
    /// cursor and completes no write. Failures are reported as `Error::Io`.
    fn create_parent_dirs(&mut self, path: &String) -> (r: Result<(), Error>)
        ensures
            r matches Err(e) ==> e is Io,
            forall|p: Seq<char>| #[trigger] final(self).path_exists_spec(p) == old(
                self,
            ).path_exists_spec(p),
            final(self).current_edit_spec() == old(self).current_edit_spec(),
            final(self).saves_spec() == old(self).saves_spec(),
    ;

    /// Whether the path already exists on disk.
    fn path_exists(&self, path: &String) -> (r: bool)
        ensures
            r == self.path_exists_spec(path@),
    ;

    /// Write the content of a layer rectangle to the given path, returning
    /// the edit id the write corresponds to — the cursor's, which the write
    /// does not move — and the number of pixels written. A successful write
    /// is appended to the write log and makes the path exist; no other
    /// path's existence changes, and no write removes a file. Failures are
    /// reported as `Error::Io`.
    fn save_layer(&mut self, layer: LayerId, rect: &Rect<u32>, path: &String) -> (r: Result<
        (EditId, usize),
        Error,
    >)
        ensures
            r matches Err(e) ==> e is Io,
            final(self).current_edit_spec() == old(self).current_edit_spec(),
            r matches Ok((eid, _)) ==> eid == old(self).current_edit_spec(),
            forall|p: Seq<char>|
                p != path@ ==> #[trigger] final(self).path_exists_spec(p) == old(
                    self,
                ).path_exists_spec(p),
            forall|p: Seq<char>|
                old(self).path_exists_spec(p) ==> #[trigger] final(self).path_exists_spec(p),
            r is Ok ==> final(self).path_exists_spec(path@),
            r is Ok ==> final(self).saves_spec() == old(self).saves_spec().push(
                (layer, *rect, path@),
            ),
            r is Err ==> final(self).saves_spec() == old(self).saves_spec(),
    ;

    /// Write the whole document as an archive to the given path, returning
    /// the number of bytes written. A successful write makes the path
    /// exist. The cursor and the layer-write log are untouched; only the
    /// target path's existence can change, and no file is removed. Failures
    /// are reported as `Error::Io`.
    fn save_archive(&mut self, path: &String) -> (r: Result<usize, Error>)
        ensures
            r matches Err(e) ==> e is Io,
            r is Ok ==> final(self).path_exists_spec(path@),
            final(self).current_edit_spec() == old(self).current_edit_spec(),
            final(self).saves_spec() == old(self).saves_spec(),
            forall|p: Seq<char>|
                p != path@ ==> #[trigger] final(self).path_exists_spec(p) == old(
                    self,
                ).path_exists_spec(p),
            forall|p: Seq<char>|
                old(self).path_exists_spec(p) ==> #[trigger] final(self).path_exists_spec(p),
    ;
}

/// One layer as held by the in-memory store.
#[derive(Debug)]
pub struct StoredLayer {
    pub id: LayerId,
    pub extent: ViewExtent,
    pub pixels: Vec<Rgba8>,
}

/// The snapshot the in-memory store hands out for a layer: the first entry
/// carrying the id; the interface's empty default when none does.
pub open spec fn find_layer(layers: Seq<StoredLayer>, layer: LayerId) -> (Snapshot, Seq<Rgba8>)
    decreases layers.len(),
{
    if layers.len() == 0 {
        (Snapshot { extent: ViewExtent { fw: 0u32, fh: 0u32, nframes: 0usize } }, Seq::empty())
    } else if layers.first().id == layer {
        (Snapshot { extent: layers.first().extent }, layers.first().pixels@)
    } else {
        find_layer(layers.drop_first(), layer)
    }
}

/// The first entry carrying an id decides `find_layer`.
proof fn lemma_find_layer_at(layers: Seq<StoredLayer>, layer: LayerId, i: int)
    requires
        0 <= i < layers.len(),
        layers[i].id == layer,
        forall|j: int| 0 <= j < i ==> layers[j].id != layer,
    ensures
        find_layer(layers, layer) == (Snapshot { extent: layers[i].extent }, layers[i].pixels@),
    decreases i,
{
    if i == 0 {
    } else {
        assert(layers[0].id != layer);
        assert(forall|j: int| 0 <= j < i - 1 ==> layers.drop_first()[j] == layers[j + 1]);
        lemma_find_layer_at(layers.drop_first(), layer, i - 1);
    }
}

/// A copy of a pixel buffer.
fn copy_pixels(v: &Vec<Rgba8>) -> (r: Vec<Rgba8>)
    ensures
        r@ == v@,
{
    let mut r: Vec<Rgba8> = Vec::new();
    let mut i: usize = 0;
    while i < v.len()
        invariant
            i <= v.len(),
            r@.len() == i,
            forall|j: int| 0 <= j < i ==> r@[j] == v@[j],
        decreases v.len() - i,
    {
        r.push(v[i]);
        i = i + 1;
    }
    proof {
        assert(r@ =~= v@);
    }
    r
}

/// An in-memory resource store: it records layers, edits and "written"
/// paths, and never fails. It backs tests and sessions that do not touch
/// the file system.
#[derive(Debug)]
pub struct MemoryResource {
    /// The recorded edits, oldest first.
    pub edits: Vec<Edit>,
    /// The history cursor: the number of edits currently applied, so the
    /// state after `cursor` edits has edit id `cursor`.
    pub cursor: usize,
    /// The layers the store holds.
    pub layers: Vec<StoredLayer>,
    /// The paths that exist on disk, as far as this store is concerned.
    pub existing: Vec<String>,
    /// The completed layer writes, oldest first.
    pub saved: Vec<(LayerId, Rect<u32>, String)>,
}

impl MemoryResource {
    pub open spec fn wf(self) -> bool {
        self.cursor <= self.edits.len()
    }

    /// An empty store: no layers, no edits, no known paths, no writes.
    pub fn new() -> (r: Self)
        ensures
            r.wf(),
            r.edits@.len() == 0,
            r.cursor == 0,
            r.layers@.len() == 0,
            r.existing@.len() == 0,
            r.saved@.len() == 0,
    {
        MemoryResource {
            edits: Vec::new(),
            cursor: 0,
            layers: Vec::new(),
            existing: Vec::new(),
            saved: Vec::new(),
        }
    }

    /// Record a completed edit: any undone tail is discarded and the
    /// cursor moves to the new end of the history.
    pub fn record_edit(&mut self, e: Edit)
        requires
            old(self).wf(),
        ensures
            final(self).wf(),
            final(self).edits@ == old(self).edits@.take(old(self).cursor as int).push(e),
            final(self).cursor == old(self).cursor + 1,
            final(self).layers == old(self).layers,
            final(self).existing == old(self).existing,
            final(self).saved == old(self).saved,
    {
        let cursor = self.cursor;
        self.edits.truncate(cursor);
        self.edits.push(e);
        self.cursor = self.edits.len();
    }

    /// Declare a path as already existing on disk.
    pub fn add_existing_path(&mut self, p: String)
        ensures
            final(self).existing@ == old(self).existing@.push(p),
            final(self).edits == old(self).edits,
            final(self).cursor == old(self).cursor,
            final(self).layers == old(self).layers,
            final(self).saved == old(self).saved,
    {
        self.existing.push(p);
    }

}

impl MemoryResource {
    /// The position of the first layer entry carrying the given id.
    fn find_layer_index(&self, layer: LayerId) -> (r: Option<usize>)
        ensures
            match r {
                Some(i) => {
                    &&& i < self.layers.len()
                    &&& self.layers[i as int].id == layer
                    &&& forall|j: int| 0 <= j < i ==> (#[trigger] self.layers[j]).id != layer
                },
                None => !self.has_layer(layer),
            },
    {
        let mut i: usize = 0;
        while i < self.layers.len()
            invariant
                i <= self.layers.len(),
                forall|j: int| 0 <= j < i ==> (#[trigger] self.layers[j]).id != layer,
            decreases self.layers.len() - i,
        {
            if self.layers[i].id == layer {
                return Some(i);
            }
            i = i + 1;
        }
        None
    }
}

impl ViewResource for MemoryResource {
    open spec fn has_layer(&self, layer: LayerId) -> bool {
        exists|i: int| 0 <= i < self.layers.len() && (#[trigger] self.layers[i]).id == layer
    }

    open spec fn path_exists_spec(&self, path: Seq<char>) -> bool {
        exists|i: int| 0 <= i < self.existing.len() && (#[trigger] self.existing[i])@ == path
    }

    open spec fn current_edit_spec(&self) -> EditId {
        EditId(self.cursor as u64)
    }

    open spec fn saves_spec(&self) -> Seq<(LayerId, Rect<u32>, Seq<char>)> {
        self.saved@.map_values(|t: (LayerId, Rect<u32>, String)| (t.0, t.1, t.2@))
    }

    open spec fn snapshot_spec(&self, layer: LayerId) -> (Snapshot, Seq<Rgba8>) {
        find_layer(self.layers@, layer)
    }

    open spec fn history_spec(&self) -> Seq<Edit> {
        self.edits@
    }

    open spec fn position_spec(&self) -> int {
        self.cursor as int
    }

    fn add_layer(&mut self, layer: LayerId, extent: ViewExtent, pixels: Vec<Rgba8>) {
        match self.find_layer_index(layer) {
            Some(i) => {
                let slot = &mut self.layers[i];
                *slot = StoredLayer { id: layer, extent, pixels };
                proof {
                    assert(self.layers[i as int].id == layer);
                    lemma_find_layer_at(self.layers@, layer, i as int);
                    assert forall|l: LayerId| old(self).has_layer(l) implies self.has_layer(
                        l,
                    ) by {
                        let k = choose|k: int|
                            0 <= k < old(self).layers.len() && (#[trigger] old(self).layers[k]).id
                                == l;
                        if k == i as int {
                            assert(self.layers[i as int].id == l);
                        } else {
                            assert(self.layers[k].id == l);
                        }
                    }
                }
            },
            None => {
                self.layers.push(StoredLayer { id: layer, extent, pixels });
                proof {
                    let n = self.layers.len() as int;
                    assert(self.layers[n - 1].id == layer);
                    assert forall|j: int| 0 <= j < n - 1 implies (#[trigger] self.layers[j]).id
                        != layer by {
                        assert(old(self).layers[j] == self.layers[j]);
                    }
                    lemma_find_layer_at(self.layers@, layer, n - 1);
                    assert forall|l: LayerId| old(self).has_layer(l) implies self.has_layer(
                        l,
                    ) by {
                        let k = choose|k: int|
                            0 <= k < old(self).layers.len() && (#[trigger] old(self).layers[k]).id
                                == l;
                        assert(self.layers[k].id == l);
                    }
                }
            },
        }
        proof {
            assert forall|p: Seq<char>| #[trigger] self.path_exists_spec(p) == old(
                self,
            ).path_exists_spec(p) by {
                if self.path_exists_spec(p) {
                    let i = choose|i: int|
                        0 <= i < self.existing.len() && (#[trigger] self.existing[i])@ == p;
                    assert(old(self).existing[i]@ == p);
                }
                if old(self).path_exists_spec(p) {
                    let i = choose|i: int|
                        0 <= i < old(self).existing.len() && (#[trigger] old(self).existing[i])@
                            == p;
                    assert(self.existing[i]@ == p);
                }
            }
        }
    }

    fn current_snapshot(&self, layer: LayerId) -> (r: Option<(Snapshot, Vec<Rgba8>)>) {
        let mut i: usize = 0;
        while i < self.layers.len()
            invariant
                i <= self.layers.len(),
                forall|j: int| 0 <= j < i ==> (#[trigger] self.layers[j]).id != layer,
            decreases self.layers.len() - i,
        {
            if self.layers[i].id == layer {
                proof {
                    lemma_find_layer_at(self.layers@, layer, i as int);
                }
                return Some((Snapshot { extent: self.layers[i].extent }, copy_pixels(&self.layers[i].pixels)));
            }
            i = i + 1;
        }
        None
    }

    fn snapshot_rect(&self, layer: LayerId, rect: &Rect<i32>) -> Option<(Snapshot, Vec<Rgba8>)> {
        // The in-memory store keeps no partial captures: it hands out the
        // full current snapshot whatever the rectangle.
        self.current_snapshot(layer)
    }

    fn history_prev(&mut self) -> Option<(EditId, Edit)> {
        if self.cursor > 0 && self.cursor <= self.edits.len() {
            self.cursor = self.cursor - 1;
            Some((EditId(self.cursor as u64), self.edits[self.cursor]))
        } else {
            None
        }
    }

    fn history_next(&mut self) -> Option<(EditId, Edit)> {
        if self.cursor < self.edits.len() {
            let e = self.edits[self.cursor];
            self.cursor = self.cursor + 1;
            Some((EditId(self.cursor as u64), e))
        } else {
            None
        }
    }

    fn current_edit(&self) -> EditId {
        EditId(self.cursor as u64)
    }

    fn create_parent_dirs(&mut self, path: &String) -> Result<(), Error> {
        Ok(())
    }

    fn path_exists(&self, path: &String) -> (r: bool) {
        let mut i: usize = 0;
        while i < self.existing.len()
            invariant
                i <= self.existing.len(),
                forall|j: int| 0 <= j < i ==> (#[trigger] self.existing[j])@ != path@,
            decreases self.existing.len() - i,
        {
            if self.existing[i] == *path {
                proof {
                    assert(self.existing[i as int]@ == path@);
                }
                return true;
            }
            i = i + 1;
        }
        false
    }

    fn save_layer(&mut self, layer: LayerId, rect: &Rect<u32>, path: &String) -> Result<
        (EditId, usize),
        Error,
    > {
        self.existing.push(path.clone());
        self.saved.push((layer, *rect, path.clone()));
        let w: u64 = if rect.x2 >= rect.x1 {
            (rect.x2 - rect.x1) as u64
        } else {
            0
        };
        let h: u64 = if rect.y2 >= rect.y1 {
            (rect.y2 - rect.y1) as u64
        } else {
            0
        };
        proof {
            assert(w * h <= 0xffff_ffff * 0xffff_ffff) by (nonlinear_arith)
                requires
                    w <= 0xffff_ffff,
                    h <= 0xffff_ffff,
                ;
            lemma_existing_push(*old(self), *self, path@);
            assert(self.saves_spec() =~= old(self).saves_spec().push((layer, *rect, path@)));
        }
        let area: u64 = w * h;
        let written: usize = if area <= usize::MAX as u64 {
            area as usize
        } else {
            usize::MAX
        };
        Ok((EditId(self.cursor as u64), written))
    }

    fn save_archive(&mut self, path: &String) -> Result<usize, Error> {
        self.existing.push(path.clone());
        proof {
            lemma_existing_push(*old(self), *self, path@);
        }
        Ok(0)
    }
}

/// Appending one path to the known-on-disk list makes that path exist,
/// keeps every other path as it was, and removes nothing.
proof fn lemma_existing_push(pre: MemoryResource, post: MemoryResource, path: Seq<char>)
    requires
        post.existing@.len() == pre.existing@.len() + 1,
        forall|i: int| 0 <= i < pre.existing@.len() ==> post.existing@[i] == pre.existing@[i],
        post.existing@.last()@ == path,
    ensures
        post.path_exists_spec(path),
        forall|p: Seq<char>|
            p != path ==> #[trigger] post.path_exists_spec(p) == pre.path_exists_spec(p),
        forall|p: Seq<char>| pre.path_exists_spec(p) ==> #[trigger] post.path_exists_spec(p),
{
    assert(post.existing[post.existing.len() - 1]@ == path);
    assert forall|p: Seq<char>| pre.path_exists_spec(p) implies #[trigger] post.path_exists_spec(
        p,
    ) by {
        let i = choose|i: int|
            0 <= i < pre.existing.len() && (#[trigger] pre.existing[i])@ == p;
        assert(post.existing[i]@ == p);
    }
    assert forall|p: Seq<char>| p != path implies #[trigger] post.path_exists_spec(p)
        == pre.path_exists_spec(p) by {
        if post.path_exists_spec(p) {
            let i = choose|i: int|
                0 <= i < post.existing.len() && (#[trigger] post.existing[i])@ == p;
            if i < pre.existing.len() {
                assert(pre.existing[i]@ == p);
            } else {
                assert(post.existing[i]@ == path);
            }
        }
    }
}

} // verus!
