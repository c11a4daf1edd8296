//! The multi-view registry: owns the set of views, assigns identifiers,
//! tracks activation order and answers ordered/neighbor queries.

use vstd::prelude::*;
use vstd::view::View as _;

use crate::file::FileStatus;
use crate::geometry::{Rect, Rgba8, ViewExtent};
use crate::layer::{FrameRange, Layer, LayerId};
use crate::resource::{EditId, Snapshot, ViewResource};
use crate::view::{View, ViewId, ViewState};

verus! {

/// The configured maximum number of views, which bounds the recency list.
pub const MAX_VIEWS: usize = 64;

/// The recency list without every occurrence of one id.
pub open spec fn lru_without(lru: Seq<ViewId>, id: ViewId) -> Seq<ViewId> {
    lru.filter(|v: ViewId| v != id)
}

/// Filtering distributes over appending one element.
proof fn lemma_lru_without_push(s: Seq<ViewId>, x: ViewId, id: ViewId)
    ensures
        lru_without(s.push(x), id) == (if x != id {
            lru_without(s, id).push(x)
        } else {
            lru_without(s, id)
        }),
{
    reveal(Seq::filter);
    assert(s.push(x).drop_last() =~= s);
    assert(s.push(x).last() == x);
}

/// Filtering the empty list gives the empty list.
proof fn lemma_lru_without_empty(id: ViewId)
    ensures
        lru_without(Seq::<ViewId>::empty(), id) =~= Seq::<ViewId>::empty(),
{
    reveal(Seq::filter);
}

/// Manages views: an id-ordered collection, a monotonic id counter, the
/// active view and a bounded most-recently-activated list.
#[derive(Debug)]
pub struct ViewManager<R> {
    /// Currently active view; the reserved default when none is.
    pub active_id: ViewId,
    /// The views, in ascending id order.
    pub views: Vec<View<R>>,
    /// The next `ViewId` to assign.
    pub next_id: ViewId,
    /// A most-recently-activated list of views (front = most recent).
    pub lru: Vec<ViewId>,
}

impl<R> ViewManager<R> {
    /// Whether a view with the given id is registered.
    pub open spec fn contains_spec(self, id: ViewId) -> bool {
        exists|i: int| 0 <= i < self.views.len() && (#[trigger] self.views[i]).id == id
    }

    /// The position of the view with the given id.
    pub open spec fn index_of(self, id: ViewId) -> int {
        choose|i: int| 0 <= i < self.views.len() && (#[trigger] self.views[i]).id == id
    }

    /// The view with the given id.
    pub open spec fn view_of(self, id: ViewId) -> View<R> {
        self.views[self.index_of(id)]
    }

    /// The registered ids, in ascending order.
    pub open spec fn ids_spec(self) -> Seq<ViewId> {
        self.views@.map_values(|v: View<R>| v.id)
    }

    /// Well-formedness: ids are strictly ascending, below the id counter
    /// and never the reserved default; every view is well formed; the
    /// recency list and the active id refer to registered views.
    pub open spec fn wf(self) -> bool {
        &&& forall|i: int, j: int|
            #![trigger self.views[i], self.views[j]]
            0 <= i < j < self.views.len() ==> self.views[i].id.0 < self.views[j].id.0
        &&& forall|i: int|
            0 <= i < self.views.len() ==> (#[trigger] self.views[i]).id.0 < self.next_id.0
        &&& forall|i: int| 0 <= i < self.views.len() ==> (#[trigger] self.views[i]).id.0 != 0
        &&& self.next_id.0 >= 1
        &&& forall|i: int| 0 <= i < self.views.len() ==> (#[trigger] self.views[i]).wf()
        &&& forall|i: int| 0 <= i < self.lru.len() ==> self.contains_spec(#[trigger] self.lru[i])
        &&& (self.active_id.0 == 0 || self.contains_spec(self.active_id))
    }

    /// A position holding an id is the position `index_of` picks: ids occur
    /// at most once.
    proof fn lemma_index_unique(self, id: ViewId, i: int)
        requires
            self.wf(),
            0 <= i < self.views.len(),
            self.views[i].id == id,
        ensures
            self.contains_spec(id),
            self.index_of(id) == i,
            self.view_of(id) == self.views[i],
    {
        assert(self.contains_spec(id));
        let k = self.index_of(id);
        assert(0 <= k < self.views.len() && self.views[k].id == id);
        if k < i {
            assert(self.views[k].id.0 < self.views[i].id.0);
        } else if k > i {
            assert(self.views[i].id.0 < self.views[k].id.0);
        }
    }

    /// New empty view manager.
    pub fn new() -> (m: Self)
        ensures
            m.wf(),
            m.active_id == ViewId(0u16),
            m.next_id == ViewId(1u16),
            m.views@.len() == 0,
            m.lru@.len() == 0,
    {
        ViewManager {
            active_id: ViewId::default(),
            next_id: ViewId(1),
            views: Vec::new(),
            lru: Vec::new(),
        }
    }

    /// Generate a new view id.
    fn gen_id(&mut self) -> (id: ViewId)
        requires
            old(self).next_id.0 < u16::MAX,
        ensures
            id == old(self).next_id,
            final(self).next_id.0 == old(self).next_id.0 + 1,
            final(self).views == old(self).views,
            final(self).lru == old(self).lru,
            final(self).active_id == old(self).active_id,
    {
        let ViewId(id) = self.next_id;
        self.next_id = ViewId(id + 1);
        ViewId(id)
    }

    /// Add a view with the given status and geometry; its fresh id is
    /// returned. The active view and the recency list are unchanged.
    pub fn add(&mut self, fs: FileStatus, w: u32, h: u32, nframes: usize, resource: R) -> (id:
        ViewId)
        requires
            old(self).wf(),
            old(self).next_id.0 < u16::MAX,
            1 <= nframes,
            w * nframes <= u32::MAX,
        ensures
            final(self).wf(),
            id == old(self).next_id,
            final(self).next_id.0 == old(self).next_id.0 + 1,
            final(self).views@.len() == old(self).views@.len() + 1,
            final(self).views@ == old(self).views@.push(final(self).views@.last()),
            ({
                let v = final(self).views@.last();
                &&& v.wf()
                &&& v.id == id
                &&& v.extent_spec() == (ViewExtent { fw: w, fh: h, nframes })
                &&& v.animation.index == 0
                &&& v.file_status == fs
                &&& v.state == ViewState::Okay
                &&& v.layers@ =~= seq![Layer { frames: FrameRange::Full, index: 0 }]
                &&& v.active_layer_id == 0
                &&& v.ops@.len() == 0
                &&& !v.flip_x
                &&& !v.flip_y
                &&& v.saved_snapshot == (if fs is Saved {
                    Some(EditId(0u64))
                } else {
                    Option::<EditId>::None
                })
                &&& v.resource == resource
            }),
            final(self).contains_spec(id),
            final(self).lru@ == old(self).lru@,
            final(self).active_id == old(self).active_id,
    {
        let id = self.gen_id();
        let view = View::new(id, fs, w, h, nframes, resource);
        self.views.push(view);
        proof {
            let n = self.views.len() as int;
            assert(self.views[n - 1].id == id);
            assert(self.contains_spec(id));
            assert forall|a: int, b: int|
                #![trigger self.views[a], self.views[b]]
                0 <= a < b < self.views.len() implies self.views[a].id.0 < self.views[b].id.0 by {
                if b == n - 1 {
                    assert(old(self).views[a].id.0 < old(self).next_id.0);
                } else {
                    assert(old(self).views[a].id.0 < old(self).views[b].id.0);
                }
            }
            assert forall|k: int| 0 <= k < self.lru.len() implies self.contains_spec(
                #[trigger] self.lru[k],
            ) by {
                let w_idx = choose|i: int|
                    0 <= i < old(self).views.len() && (#[trigger] old(self).views[i]).id == old(
                        self,
                    ).lru[k];
                assert(self.views[w_idx].id == self.lru[k]);
            }
            if self.active_id.0 != 0 {
                let a_idx = choose|i: int|
                    0 <= i < old(self).views.len() && (#[trigger] old(self).views[i]).id == old(
                        self,
                    ).active_id;
                assert(self.views[a_idx].id == self.active_id);
            }
        }
        id
    }

    /// The position of a view, by id.
    fn find_index(&self, id: ViewId) -> (r: Option<usize>)
        requires
            self.wf(),
        ensures
            match r {
                Some(i) => {
                    &&& i < self.views.len()
                    &&& self.views[i as int].id == id
                    &&& self.contains_spec(id)
                    &&& self.index_of(id) == i
                },
                None => !self.contains_spec(id),
            },
    {
        let mut i: usize = 0;
        while i < self.views.len()
            invariant
                i <= self.views.len(),
                self.wf(),
                forall|j: int| 0 <= j < i ==> (#[trigger] self.views[j]).id != id,
            decreases self.views.len() - i,
        {
            if self.views[i].id == id {
                proof {
                    self.lemma_index_unique(id, i as int);
                }
                return Some(i);
            }
            i = i + 1;
        }
        None
    }

    /// Get a view.
    pub fn get(&self, id: ViewId) -> (r: Option<&View<R>>)
        requires
            self.wf(),
        ensures
            match r {
                Some(v) => self.contains_spec(id) && *v == self.view_of(id),
                None => !self.contains_spec(id),
            },
    {
        match self.find_index(id) {
            Some(i) => Some(&self.views[i]),
            None => None,
        }
    }

    /// Get a view, mutably.
    pub fn get_mut(&mut self, id: ViewId) -> (v: &mut View<R>)
        requires
            old(self).wf(),
            old(self).contains_spec(id),
        ensures
            *v == old(self).view_of(id),
            final(self).views@ == old(self).views@.update(old(self).index_of(id), *final(v)),
            final(self).active_id == old(self).active_id,
            final(self).next_id == old(self).next_id,
            final(self).lru == old(self).lru,
    {
        let i = match self.find_index(id) {
            Some(i) => i,
            None => vstd::pervasive::unreached(),
        };
        &mut self.views[i]
    }

    /// Return the id of the most recently activated view, if any.
    pub fn recent(&self) -> (r: Option<ViewId>)
        ensures
            r == (if self.lru.len() > 0 {
                Some(self.lru[0])
            } else {
                Option::<ViewId>::None
            }),
    {
        if self.lru.len() > 0 {
            Some(self.lru[0])
        } else {
            None
        }
    }

    /// Return the currently active view, if any.
    pub fn active(&self) -> (r: Option<&View<R>>)
        requires
            self.wf(),
        ensures
            match r {
                Some(v) => self.contains_spec(self.active_id) && *v == self.view_of(
                    self.active_id,
                ),
                None => !self.contains_spec(self.active_id),
            },
    {
        self.get(self.active_id)
    }

    /// Return the currently active view, mutably. There must be one.
    pub fn active_mut(&mut self) -> (v: &mut View<R>)
        requires
            old(self).wf(),
            old(self).contains_spec(old(self).active_id),
        ensures
            *v == old(self).view_of(old(self).active_id),
            final(self).views@ == old(self).views@.update(
                old(self).index_of(old(self).active_id),
                *final(v),
            ),
            final(self).active_id == old(self).active_id,
            final(self).next_id == old(self).next_id,
            final(self).lru == old(self).lru,
    {
        let id = self.active_id;
        self.get_mut(id)
    }

    /// Activate a view: it becomes the active one and moves to the front of
    /// the recency list, which is truncated to its capacity. Re-activating
    /// the already-active view is a no-op.
    pub fn activate(&mut self, id: ViewId)
        requires
            old(self).wf(),
            old(self).contains_spec(id),
        ensures
            final(self).wf(),
            final(self).active_id == id,
            final(self).views == old(self).views,
            final(self).next_id == old(self).next_id,
            old(self).active_id == id ==> final(self).lru == old(self).lru,
            old(self).active_id != id ==> final(self).lru@ == (seq![id] + old(self).lru@).take(
                if old(self).lru@.len() + 1 <= MAX_VIEWS {
                    old(self).lru@.len() as int + 1
                } else {
                    MAX_VIEWS as int
                },
            ),
    {
        if self.active_id == id {
            return ;
        }
        self.active_id = id;
        self.lru.insert(0, id);
        self.lru.truncate(MAX_VIEWS);
        proof {
            assert(self.lru@ == (seq![id] + old(self).lru@).take(
                if old(self).lru@.len() + 1 <= MAX_VIEWS {
                    old(self).lru@.len() as int + 1
                } else {
                    MAX_VIEWS as int
                },
            ));
            assert forall|k: int| 0 <= k < self.lru.len() implies self.contains_spec(
                #[trigger] self.lru[k],
            ) by {
                if k > 0 {
                    assert(self.lru[k] == old(self).lru[k - 1]);
                }
            }
        }
    }

    /// Remove a view. The active view falls back to the most recently used
    /// remaining view, else the first remaining view, else the reserved
    /// default.
    pub fn remove(&mut self, id: ViewId)
        requires
            old(self).wf(),
        ensures
            final(self).wf(),
            old(self).contains_spec(id) ==> final(self).views@ == old(self).views@.remove(
                old(self).index_of(id),
            ),
            !old(self).contains_spec(id) ==> final(self).views@ == old(self).views@,
            final(self).lru@ == lru_without(old(self).lru@, id),
            final(self).next_id == old(self).next_id,
            final(self).active_id == (if final(self).lru.len() > 0 {
                final(self).lru[0]
            } else if final(self).views.len() > 0 {
                final(self).views[0].id
            } else {
                ViewId(0u16)
            }),
    {
        match self.find_index(id) {
            Some(i) => {
                let _ = self.views.remove(i);
            },
            None => {},
        }
        proof {
            assert forall|a: int, b: int|
                #![trigger self.views[a], self.views[b]]
                0 <= a < b < self.views.len() implies self.views[a].id.0 < self.views[b].id.0 by {
                let i = old(self).index_of(id);
                if old(self).contains_spec(id) {
                    if a < i && b < i {
                    } else if a < i {
                        assert(self.views[b] == old(self).views[b + 1]);
                    } else {
                        assert(self.views[a] == old(self).views[a + 1]);
                        assert(self.views[b] == old(self).views[b + 1]);
                    }
                }
            }
        }
        let ghost old_lru = self.lru@;
        let mut kept: Vec<ViewId> = Vec::new();
        let mut i: usize = 0;
        proof {
            lemma_lru_without_empty(id);
            assert(old_lru.subrange(0, 0) =~= Seq::<ViewId>::empty());
        }
        while i < self.lru.len()
            invariant
                i <= self.lru.len(),
                self.lru@ == old_lru,
                kept@ == lru_without(old_lru.subrange(0, i as int), id),
                forall|k: int| 0 <= k < kept@.len() ==> kept@[k] != id,
                forall|k: int|
                    0 <= k < kept@.len() ==> old_lru.contains(#[trigger] kept@[k]),
            decreases self.lru.len() - i,
        {
            let e = self.lru[i];
            proof {
                assert(old_lru.subrange(0, i + 1) =~= old_lru.subrange(0, i as int).push(e));
                lemma_lru_without_push(old_lru.subrange(0, i as int), e, id);
            }
            if !(e == id) {
                kept.push(e);
            }
            i = i + 1;
        }
        proof {
            assert(old_lru.subrange(0, old_lru.len() as int) =~= old_lru);
        }
        self.lru = kept;

        self.active_id = if self.lru.len() > 0 {
            self.lru[0]
        } else if self.views.len() > 0 {
            self.views[0].id
        } else {
            ViewId::default()
        };

        proof {
            assert forall|k: int| 0 <= k < self.lru.len() implies self.contains_spec(
                #[trigger] self.lru[k],
            ) by {
                let e = self.lru[k];
                let j = choose|j: int| 0 <= j < old_lru.len() && old_lru[j] == e;
                assert(old(self).contains_spec(e));
                let w_idx = old(self).index_of(e);
                if old(self).contains_spec(id) {
                    let i0 = old(self).index_of(id);
                    if w_idx < i0 {
                        assert(self.views[w_idx].id == e);
                    } else {
                        assert(old(self).views[w_idx].id != id);
                        assert(w_idx != i0);
                        assert(self.views[w_idx - 1].id == e);
                    }
                } else {
                    assert(self.views[w_idx].id == e);
                }
            }
        }
    }

    /// The views, in ascending id order.
    pub fn views(&self) -> (r: &Vec<View<R>>)
        ensures
            r == &self.views,
    {
        &self.views
    }

    /// The registered ids, in ascending order.
    pub fn ids(&self) -> (r: Vec<ViewId>)
        ensures
            r@ == self.ids_spec(),
    {
        let mut out: Vec<ViewId> = Vec::new();
        let mut i: usize = 0;
        while i < self.views.len()
            invariant
                i <= self.views.len(),
                out@.len() == i,
                forall|j: int| 0 <= j < i ==> out@[j] == (#[trigger] self.views[j]).id,
            decreases self.views.len() - i,
        {
            out.push(self.views[i].id);
            i = i + 1;
        }
        proof {
            assert(out@ =~= self.ids_spec());
        }
        out
    }

    /// Get the id registered directly after the given one, for "next
    /// document" navigation from a registered id.
    pub fn after(&self, id: ViewId) -> (r: Option<ViewId>)
        requires
            self.wf(),
        ensures
            r matches Some(x) ==> self.contains_spec(x) && x.0 > id.0,
            self.contains_spec(id) ==> match r {
                Some(x) => forall|i: int|
                    0 <= i < self.views.len() && (#[trigger] self.views[i]).id.0 > id.0 ==> x.0
                        <= self.views[i].id.0,
                None => forall|i: int|
                    0 <= i < self.views.len() ==> (#[trigger] self.views[i]).id.0 <= id.0,
            },
    {
        let mut i: usize = 0;
        while i < self.views.len() && self.views[i].id.0 < id.0
            invariant
                i <= self.views.len(),
                self.wf(),
                forall|j: int| 0 <= j < i ==> (#[trigger] self.views[j]).id.0 < id.0,
            decreases self.views.len() - i,
        {
            i = i + 1;
        }
        if i < self.views.len() {
            let j = i + 1;
            if j < self.views.len() {
                proof {
                    self.lemma_index_unique(self.views[j as int].id, j as int);
                }
                return Some(self.views[j].id);
            }
        }
        None
    }

    /// Get the id registered directly before the given one, for "previous
    /// document" navigation.
    pub fn before(&self, id: ViewId) -> (r: Option<ViewId>)
        requires
            self.wf(),
        ensures
            match r {
                Some(x) => self.contains_spec(x) && x.0 < id.0 && forall|i: int|
                    0 <= i < self.views.len() && (#[trigger] self.views[i]).id.0 < id.0
                        ==> self.views[i].id.0 <= x.0,
                None => forall|i: int|
                    0 <= i < self.views.len() ==> (#[trigger] self.views[i]).id.0 >= id.0,
            },
    {
        let mut i: usize = self.views.len();
        while i > 0
            invariant
                i <= self.views.len(),
                self.wf(),
                forall|j: int| i <= j < self.views.len() ==> (#[trigger] self.views[j]).id.0
                    >= id.0,
            decreases i,
        {
            i = i - 1;
            if self.views[i].id.0 < id.0 {
                proof {
                    self.lemma_index_unique(self.views[i as int].id, i as int);
                }
                return Some(self.views[i].id);
            }
        }
        None
    }

    /// Get the first view, if any.
    pub fn first(&self) -> (r: Option<&View<R>>)
        ensures
            match r {
                Some(v) => self.views.len() > 0 && *v == self.views[0],
                None => self.views.len() == 0,
            },
    {
        if self.views.len() > 0 {
            Some(&self.views[0])
        } else {
            None
        }
    }

    /// Get the first view mutably. There must be one.
    pub fn first_mut(&mut self) -> (v: &mut View<R>)
        requires
            old(self).views.len() > 0,
        ensures
            *v == old(self).views[0],
            final(self).views@ == old(self).views@.update(0, *final(v)),
            final(self).active_id == old(self).active_id,
            final(self).next_id == old(self).next_id,
            final(self).lru == old(self).lru,
    {
        &mut self.views[0]
    }

    /// Get the last view, if any.
    pub fn last(&self) -> (r: Option<&View<R>>)
        ensures
            match r {
                Some(v) => self.views.len() > 0 && *v == self.views@.last(),
                None => self.views.len() == 0,
            },
    {
        if self.views.len() > 0 {
            Some(&self.views[self.views.len() - 1])
        } else {
            None
        }
    }

    /// Whether no views are registered.
    pub fn is_empty(&self) -> (r: bool)
        ensures
            r == (self.views.len() == 0),
    {
        self.views.len() == 0
    }
}

impl<R: ViewResource> ViewManager<R> {
    /// The current snapshot of a layer of a view, if the view is registered
    /// and the store holds the layer: the snapshot the store models for
    /// that layer.
    pub fn get_snapshot_safe(&self, id: ViewId, layer_id: LayerId) -> (r: Option<
        (Snapshot, Vec<Rgba8>),
    >)
        requires
            self.wf(),
        ensures
            r is Some <==> self.contains_spec(id) && self.view_of(id).resource.has_layer(
                layer_id,
            ),
            r matches Some(x) ==> x.0 == self.view_of(id).resource.snapshot_spec(layer_id).0
                && x.1@ == self.view_of(id).resource.snapshot_spec(layer_id).1,
    {
        match self.get(id) {
            Some(v) => v.resource.current_snapshot(layer_id),
            None => None,
        }
    }

    /// The current snapshot of a layer of a view. The view must be
    /// registered and its store must hold the layer: a missing one is a
    /// caller error, not a recoverable failure.
    pub fn get_snapshot(&self, id: ViewId, layer_id: LayerId) -> (r: (Snapshot, Vec<Rgba8>))
        requires
            self.wf(),
            self.contains_spec(id),
            self.view_of(id).resource.has_layer(layer_id),
        ensures
            r.0 == self.view_of(id).resource.snapshot_spec(layer_id).0,
            r.1@ == self.view_of(id).resource.snapshot_spec(layer_id).1,
    {
        match self.get_snapshot_safe(id, layer_id) {
            Some(x) => x,
            None => vstd::pervasive::unreached(),
        }
    }

    /// The snapshot of a layer of a view restricted to a rectangle, under
    /// the same obligations as `get_snapshot`.
    pub fn get_snapshot_rect(&self, id: ViewId, layer_id: LayerId, rect: &Rect<i32>) -> (r: Option<
        (Snapshot, Vec<Rgba8>),
    >)
        requires
            self.wf(),
            self.contains_spec(id),
            self.view_of(id).resource.has_layer(layer_id),
        ensures
            r matches Some(x) ==> x.0 == self.view_of(id).resource.snapshot_spec(layer_id).0,
    {
        match self.get(id) {
            Some(v) => v.resource.snapshot_rect(layer_id, rect),
            None => vstd::pervasive::unreached(),
        }
    }
}

} // verus!
